//! Raises alerts on events, and follows them up.
use vstd::prelude::*;

use crate::aggregation::{after_alert, counts_fit, emitted, pending, AlertAggregator, WindowModel};
use crate::alert::{
    alert_view, alerts_view, assign_ids, bare_alert, detection_alert, event_severity, level,
    of_alert, with_ids, Alert, AlertModel, AlertSeverity, AlertStatus,
};
use crate::alert_rules::{
    actions_view, copy_actions, group_holds, rule_alert, rules_view, triggers_view, ActionModel,
    AlertRule, AutoResponseAction, AutoResponseTrigger, CorrelationRule, CorrelationRuleModel, RuleModel,
    TriggerModel,
};
use crate::collect::{
    first_index, lemma_filter_map, lemma_filter_members, lemma_first_index, lemma_first_index_map,
    position_where, retain,
};
use crate::correlation::{
    after_event, chains_view, elapsed, empty_engine, found_chains, time_between, AttackChain,
    ChainModel, CorrelationEngine, CorrelationModel, StageModel,
};
use crate::ids::{drawn, lemma_drawn_twice, lemma_nothing_drawn, used, IdSource};
use crate::json::{opt_json, JsonModel, JsonValue};
use crate::notification::{
    channels_view, ChannelKind, ChannelModel, FileChannel, SyslogChannel, WindowsEventLogChannel,
};
use crate::response::{
    all_pending, answered, approved, given_at_once, idle, orders_view, rejected, waiting,
    with_response, Responder, ResponderModel, ResponseOrder,
};
use crate::risk_scorer::{
    bounded, cleaned, decay, decayed_risk, entries_of, scored, RiskScorer, ScorerModel,
    MAX_ENDPOINT_ENTRIES,
};
use crate::sightings::{
    after_rule, hold_against, raises, sightings_view, Sighting, SightingModel,
};
use crate::telemetry::{detections_view, Detection, DetectionModel, TelemetryEvent, ONE};
use crate::text::{
    decimal, decimal_text, join, joined, push_text, round_to, rounded, same, tenths, tenths_text,
    texts,
};
use crate::textmap::TextMap;

verus! {

/// For how many milliseconds an alert counts against the limit.
pub const RATE_WINDOW_MS: u64 = 60_000;

/// How alerts are raised and followed up.
pub struct AlertingConfig {
    /// Whether alerts are raised.
    pub enabled: bool,
    /// The least severity.
    pub min_severity: AlertSeverity,
    /// Whether repetitions are held back.
    pub aggregation_enabled: bool,
    /// For how many seconds they are.
    pub aggregation_window_seconds: u64,
    /// Whether alerts are acted on.
    pub auto_response_enabled: bool,
    /// When and how they are.
    pub auto_response_triggers: Vec<AutoResponseTrigger>,
    /// How many alerts go out in a minute.
    pub rate_limit_per_minute: u32,
    /// Whether alerts are written to a file.
    pub file_logging_enabled: bool,
    /// To which one.
    pub file_log_path: String,
    /// Whether alerts are written to the log of the system.
    pub local_log_enabled: bool,
    /// The risk of the machine that is an alert by itself, in millionths of a point.
    pub risk_escalation_threshold: u64,
}

/// What settings say.
#[verifier::ext_equal]
pub struct ConfigModel {
    pub enabled: bool,
    pub min_severity: AlertSeverity,
    pub aggregation_enabled: bool,
    pub aggregation_window_seconds: u64,
    pub auto_response_enabled: bool,
    pub auto_response_triggers: Seq<TriggerModel>,
    pub rate_limit_per_minute: u32,
    pub file_logging_enabled: bool,
    pub file_log_path: Seq<char>,
    pub local_log_enabled: bool,
    pub risk_escalation_threshold: u64,
}

impl View for AlertingConfig {
    type V = ConfigModel;

    open spec fn view(&self) -> ConfigModel {
        ConfigModel {
            enabled: self.enabled,
            min_severity: self.min_severity,
            aggregation_enabled: self.aggregation_enabled,
            aggregation_window_seconds: self.aggregation_window_seconds,
            auto_response_enabled: self.auto_response_enabled,
            auto_response_triggers: triggers_view(self.auto_response_triggers@),
            rate_limit_per_minute: self.rate_limit_per_minute,
            file_logging_enabled: self.file_logging_enabled,
            file_log_path: self.file_log_path@,
            local_log_enabled: self.local_log_enabled,
            risk_escalation_threshold: self.risk_escalation_threshold,
        }
    }
}

/// The usual settings on a system.
pub open spec fn usual_config(windows: bool) -> ConfigModel {
    ConfigModel {
        enabled: true,
        min_severity: AlertSeverity::Low,
        aggregation_enabled: true,
        aggregation_window_seconds: 300,
        auto_response_enabled: false,
        auto_response_triggers: seq![
            TriggerModel {
                min_severity: AlertSeverity::Critical,
                min_confidence: 900_000,
                actions: seq![ActionModel::IsolateNetwork { allowed_ips: Seq::empty() }],
                require_approval: false,
                cooldown_seconds: 300,
            },
        ],
        rate_limit_per_minute: 100,
        file_logging_enabled: false,
        file_log_path: if windows {
            "C:\\ProgramData\\Tamandua\\alerts.jsonl"@
        } else {
            "/var/log/tamandua/alerts.jsonl"@
        },
        local_log_enabled: true,
        risk_escalation_threshold: 80_000_000,
    }
}

impl AlertingConfig {
    /// The usual settings on a system.
    pub fn for_system(windows: bool) -> (r: AlertingConfig)
        ensures
            r@ == usual_config(windows),
    {
        let allowed_ips: Vec<String> = Vec::new();
        assert(texts(allowed_ips@) =~= Seq::empty());
        let mut actions: Vec<AutoResponseAction> = Vec::new();
        actions.push(AutoResponseAction::IsolateNetwork { allowed_ips });
        assert(actions_view(actions@) =~= seq![
            ActionModel::IsolateNetwork { allowed_ips: Seq::empty() },
        ]);
        let mut auto_response_triggers: Vec<AutoResponseTrigger> = Vec::new();
        auto_response_triggers.push(
            AutoResponseTrigger {
                min_severity: AlertSeverity::Critical,
                min_confidence: 900_000,
                actions,
                require_approval: false,
                cooldown_seconds: 300,
            },
        );
        assert(triggers_view(auto_response_triggers@) =~= usual_config(
            windows,
        ).auto_response_triggers);
        AlertingConfig {
            enabled: true,
            min_severity: AlertSeverity::Low,
            aggregation_enabled: true,
            aggregation_window_seconds: 300,
            auto_response_enabled: false,
            auto_response_triggers,
            rate_limit_per_minute: 100,
            file_logging_enabled: false,
            file_log_path: if windows {
                "C:\\ProgramData\\Tamandua\\alerts.jsonl".to_string()
            } else {
                "/var/log/tamandua/alerts.jsonl".to_string()
            },
            local_log_enabled: true,
            risk_escalation_threshold: 80_000_000,
        }
    }
}

impl Default for AlertingConfig {
    /// The usual settings on this system.
    fn default() -> (r: AlertingConfig)
        ensures
            r@ == usual_config(true) || r@ == usual_config(false),
    {
        AlertingConfig::for_system(crate::paths::backslash_separates())
    }
}

/// What an engine knows.
#[verifier::ext_equal]
pub struct EngineModel {
    pub config: ConfigModel,
    pub rules: Seq<RuleModel>,
    pub correlation: CorrelationModel,
    pub scorer: ScorerModel,
    pub windows: Seq<WindowModel>,
    pub channels: Seq<ChannelModel>,
    /// Where alerts stand.
    pub states: Map<Seq<char>, AlertStatus>,
    /// When alerts went out of late.
    pub limiter: Seq<u64>,
    pub responder: ResponderModel,
    /// When rules matched of late.
    pub sightings: Seq<SightingModel>,
}

/// When rules matched, once the first `n` were held against an event.
pub open spec fn seen_after(
    rules: Seq<RuleModel>,
    seen: Seq<SightingModel>,
    json: Option<JsonModel>,
    now: u64,
    n: nat,
) -> Seq<SightingModel>
    decreases n,
{
    if n == 0 {
        seen
    } else {
        after_rule(seen_after(rules, seen, json, now, (n - 1) as nat), rules[n - 1], json, now)
    }
}

/// The alerts that the first `n` rules raise on an event, without identifiers yet.
pub open spec fn rule_drafts(
    rules: Seq<RuleModel>,
    seen: Seq<SightingModel>,
    event: TelemetryEvent,
    json: Option<JsonModel>,
    now: u64,
    n: nat,
) -> Seq<AlertModel>
    decreases n,
{
    if n == 0 {
        Seq::empty()
    } else {
        let before = rule_drafts(rules, seen, event, json, now, (n - 1) as nat);
        let seen_before = seen_after(rules, seen, json, now, (n - 1) as nat);
        if raises(seen_before, rules[n - 1], json, now) {
            before.push(rule_alert(rules[n - 1], Seq::empty(), event, now))
        } else {
            before
        }
    }
}

/// What the first `n` rules ask to be done about the alerts that they raise.
pub open spec fn rule_actions(
    rules: Seq<RuleModel>,
    seen: Seq<SightingModel>,
    json: Option<JsonModel>,
    now: u64,
    n: nat,
) -> Seq<Seq<ActionModel>>
    decreases n,
{
    if n == 0 {
        Seq::empty()
    } else {
        let before = rule_actions(rules, seen, json, now, (n - 1) as nat);
        let seen_before = seen_after(rules, seen, json, now, (n - 1) as nat);
        if raises(seen_before, rules[n - 1], json, now) {
            before.push(rules[n - 1].auto_response)
        } else {
            before
        }
    }
}

/// What is to be done about an alert, by its identifier.
pub open spec fn of_own() -> spec_fn((String, Vec<AutoResponseAction>)) -> (
    Seq<char>,
    Seq<ActionModel>,
) {
    |e: (String, Vec<AutoResponseAction>)| (e.0@, actions_view(e.1@))
}

/// What is to be done about alerts, by their identifiers.
pub open spec fn own_view(own: Seq<(String, Vec<AutoResponseAction>)>) -> Seq<
    (Seq<char>, Seq<ActionModel>),
> {
    own.map_values(of_own())
}

/// Whether an entry is of an alert.
pub open spec fn of_id(id: Seq<char>) -> spec_fn((Seq<char>, Seq<ActionModel>)) -> bool {
    |e: (Seq<char>, Seq<ActionModel>)| e.0 == id
}

/// What is to be done about an alert.
pub open spec fn asked_for(own: Seq<(Seq<char>, Seq<ActionModel>)>, id: Seq<char>) -> Seq<
    ActionModel,
> {
    match first_index(own, of_id(id)) {
        Some(i) => own[i].1,
        None => Seq::empty(),
    }
}

/// What rules ask to be done about the alerts that they raise on an event, by the
/// identifiers of the alerts.
pub open spec fn own_actions(
    m: EngineModel,
    json: Option<JsonModel>,
    ids: Seq<Seq<char>>,
    now: u64,
) -> Seq<(Seq<char>, Seq<ActionModel>)> {
    let all = rule_actions(m.rules, m.sightings, json, now, m.rules.len());
    Seq::new(all.len(), |i: int| (ids[i], all[i]))
}

/// The alerts that the first `n` detections on an event raise, without identifiers
/// yet.
pub open spec fn detection_drafts(
    event: TelemetryEvent,
    detections: Seq<DetectionModel>,
    now: u64,
    n: nat,
) -> Seq<AlertModel>
    decreases n,
{
    if n == 0 {
        Seq::empty()
    } else {
        detection_drafts(event, detections, now, (n - 1) as nat).push(
            detection_alert(Seq::empty(), event, detections[n - 1], now),
        )
    }
}

/// The alerts that rules and detections raise on an event, without identifiers yet.
pub open spec fn drafts(
    rules: Seq<RuleModel>,
    seen: Seq<SightingModel>,
    event: TelemetryEvent,
    json: Option<JsonModel>,
    now: u64,
) -> Seq<AlertModel> {
    let detections = detections_view(event.detections@);
    rule_drafts(rules, seen, event, json, now, rules.len()) + detection_drafts(
        event,
        detections,
        now,
        detections.len(),
    )
}

/// Whether an alert is severe enough.
pub open spec fn severe(min: AlertSeverity) -> spec_fn(AlertModel) -> bool {
    |a: AlertModel| level(a.severity) >= level(min)
}

/// What the correlation knows once it saw an event with the first `n` alerts on it.
pub open spec fn correlated(
    m: CorrelationModel,
    event: TelemetryEvent,
    json: Option<JsonModel>,
    alerts: Seq<AlertModel>,
    now: u64,
    n: nat,
) -> CorrelationModel
    decreases n,
{
    if n == 0 {
        m
    } else {
        after_event(
            correlated(m, event, json, alerts, now, (n - 1) as nat),
            event,
            json,
            Some(alerts[n - 1].alert_id),
            now,
        )
    }
}

/// The attacks that come out with the first `n` alerts on an event.
pub open spec fn attacks(
    m: CorrelationModel,
    event: TelemetryEvent,
    json: Option<JsonModel>,
    alerts: Seq<AlertModel>,
    now: u64,
    n: nat,
) -> Seq<ChainModel>
    decreases n,
{
    if n == 0 {
        Seq::empty()
    } else {
        attacks(m, event, json, alerts, now, (n - 1) as nat) + found_chains(
            correlated(m, event, json, alerts, now, (n - 1) as nat),
            event,
            json,
            Some(alerts[n - 1].alert_id),
            now,
        )
    }
}

/// The alerts of the first `n` steps.
pub open spec fn stage_alerts(stages: Seq<StageModel>, n: nat) -> Seq<Seq<char>>
    decreases n,
{
    if n == 0 {
        Seq::empty()
    } else {
        stage_alerts(stages, (n - 1) as nat) + stages[n - 1].alert_ids
    }
}

/// The events of the first `n` steps.
pub open spec fn stage_events(stages: Seq<StageModel>, n: nat) -> Seq<Seq<char>>
    decreases n,
{
    if n == 0 {
        Seq::empty()
    } else {
        stage_events(stages, (n - 1) as nat) + stages[n - 1].event_ids
    }
}

/// Some numbers as they are written.
pub open spec fn numerals(numbers: Seq<u32>) -> Seq<Seq<char>> {
    numbers.map_values(|n: u32| decimal(n as nat))
}

/// The alert on an attack, without an identifier yet.
pub open spec fn chain_alert(chain: ChainModel, now: u64) -> AlertModel {
    let count = decimal(chain.stages.len());
    AlertModel {
        confidence: chain.overall_confidence,
        related_alert_ids: stage_alerts(chain.stages, chain.stages.len()),
        related_event_ids: stage_events(chain.stages, chain.stages.len()),
        tags: seq!["attack_chain"@, "stages:"@ + count],
        metadata: Map::<Seq<char>, Seq<char>>::empty().insert(
            "related_pids"@,
            joined(numerals(chain.related_pids), ","@),
        ).insert("related_ips"@, joined(chain.related_ips, ","@)),
        ..bare_alert(
            Seq::empty(),
            "Attack Chain Detected ("@ + count + " stages)"@,
            "Correlated attack chain with "@ + count + " stages detected"@,
            chain.overall_severity,
            now,
        )
    }
}

/// The alerts on some attacks, without identifiers yet.
pub open spec fn chain_alerts(chains: Seq<ChainModel>, now: u64) -> Seq<AlertModel> {
    chains.map_values(|c: ChainModel| chain_alert(c, now))
}

/// Whether an alert adds to the risk of a process.
pub open spec fn adds_risk(a: AlertModel) -> bool {
    a.process_context is Some && a.source_detection is Some
}

/// What the scorer knows once it saw the first `n` alerts.
pub open spec fn scored_all(m: ScorerModel, alerts: Seq<AlertModel>, now: u64, n: nat) -> ScorerModel
    decreases n,
{
    if n == 0 {
        m
    } else {
        let before = scored_all(m, alerts, now, (n - 1) as nat);
        let a = alerts[n - 1];
        if adds_risk(a) {
            scored(before, a.process_context->0.pid, a.source_detection->0, a.severity, now)
        } else {
            before
        }
    }
}

/// How much is left of each risk of the machine, of which that is told of the first
/// ones.
pub open spec fn padded_decays(decays: Seq<u32>, n: nat) -> Seq<u32> {
    Seq::new(n, |i: int| decay(decays, i))
}

/// How much is left of each risk once a fresh one was added.
pub open spec fn with_fresh(decays: Seq<u32>) -> Seq<u32> {
    if decays.push(ONE).len() > MAX_ENDPOINT_ENTRIES {
        decays.push(ONE).drop_first()
    } else {
        decays.push(ONE)
    }
}

/// How much is left of each risk once the first `n` alerts were scored.
pub open spec fn decays_after(decays: Seq<u32>, alerts: Seq<AlertModel>, n: nat) -> Seq<u32>
    decreases n,
{
    if n == 0 {
        decays
    } else {
        let before = decays_after(decays, alerts, (n - 1) as nat);
        if adds_risk(alerts[n - 1]) {
            with_fresh(before)
        } else {
            before
        }
    }
}

/// The alert on the risk of the machine.
pub open spec fn escalation_alert(id: Seq<char>, risk: u64, now: u64) -> AlertModel {
    AlertModel {
        risk_score: risk,
        tags: seq!["risk_escalation"@],
        ..bare_alert(
            id,
            "High Endpoint Risk Score"@,
            "Endpoint risk score has reached "@ + tenths(rounded(risk as nat, 100_000)) + "%"@,
            AlertSeverity::High,
            now,
        )
    }
}

/// What is known of repetitions after the first `n` alerts.
pub open spec fn aggregated(
    windows: Seq<WindowModel>,
    window_seconds: u64,
    alerts: Seq<AlertModel>,
    now: u64,
    n: nat,
) -> Seq<WindowModel>
    decreases n,
{
    if n == 0 {
        windows
    } else {
        after_alert(
            aggregated(windows, window_seconds, alerts, now, (n - 1) as nat),
            window_seconds,
            alerts[n - 1],
            now,
        )
    }
}

/// What is left of the first `n` alerts once repetitions are held back.
pub open spec fn let_through(
    windows: Seq<WindowModel>,
    window_seconds: u64,
    alerts: Seq<AlertModel>,
    now: u64,
    n: nat,
) -> Seq<AlertModel>
    decreases n,
{
    if n == 0 {
        Seq::empty()
    } else {
        let before = let_through(windows, window_seconds, alerts, now, (n - 1) as nat);
        match emitted(
            aggregated(windows, window_seconds, alerts, now, (n - 1) as nat),
            window_seconds,
            alerts[n - 1],
            now,
        ) {
            Some(out) => before.push(out),
            None => before,
        }
    }
}

/// The moments without those in front that are too long ago.
pub open spec fn recent_moments(moments: Seq<u64>, now: u64) -> Seq<u64>
    decreases moments.len(),
{
    if moments.len() > 0 && elapsed(moments[0], now) > RATE_WINDOW_MS {
        recent_moments(moments.drop_first(), now)
    } else {
        moments
    }
}

/// How many of `n` alerts may go out.
pub open spec fn allowed(limit: u32, moments: Seq<u64>, now: u64, n: nat) -> nat {
    let taken = recent_moments(moments, now).len();
    if limit <= taken {
        0
    } else if limit - taken <= n {
        (limit - taken) as nat
    } else {
        n
    }
}

/// The moments once `n` alerts went out.
pub open spec fn with_moments(moments: Seq<u64>, now: u64, n: nat) -> Seq<u64> {
    recent_moments(moments, now) + Seq::new(n, |i: int| now)
}

/// What the responder knows once it saw the first `n` alerts, some of which have
/// rules that ask for something.
pub open spec fn responded_all(
    m: ResponderModel,
    triggers: Seq<TriggerModel>,
    own: Seq<(Seq<char>, Seq<ActionModel>)>,
    alerts: Seq<AlertModel>,
    now: u64,
    n: nat,
) -> ResponderModel
    decreases n,
{
    if n == 0 {
        m
    } else {
        answered(
            responded_all(m, triggers, own, alerts, now, (n - 1) as nat),
            triggers,
            asked_for(own, alerts[n - 1].alert_id),
            alerts[n - 1],
            now,
        )
    }
}

/// An alert as it goes out behind others: with what is ordered about it.
pub open spec fn answered_alert(
    m: ResponderModel,
    triggers: Seq<TriggerModel>,
    own: Seq<(Seq<char>, Seq<ActionModel>)>,
    alerts: Seq<AlertModel>,
    now: u64,
    i: int,
) -> AlertModel {
    with_response(
        alerts[i],
        given_at_once(
            responded_all(m, triggers, own, alerts, now, i as nat),
            triggers,
            asked_for(own, alerts[i].alert_id),
            alerts[i],
            now,
        ),
    )
}

/// Some alerts as they go out: with what is ordered about them, where anything is.
pub open spec fn answered_alerts(
    m: EngineModel,
    own: Seq<(Seq<char>, Seq<ActionModel>)>,
    alerts: Seq<AlertModel>,
    now: u64,
) -> Seq<AlertModel> {
    if m.config.auto_response_enabled {
        Seq::new(
            alerts.len(),
            |i: int|
                answered_alert(
                    m.responder,
                    m.config.auto_response_triggers,
                    own,
                    alerts,
                    now,
                    i,
                ),
        )
    } else {
        alerts
    }
}

/// Where alerts stand once the first `n` went out.
pub open spec fn with_states(
    states: Map<Seq<char>, AlertStatus>,
    alerts: Seq<AlertModel>,
    n: nat,
) -> Map<Seq<char>, AlertStatus>
    decreases n,
{
    if n == 0 {
        states
    } else {
        with_states(states, alerts, (n - 1) as nat).insert(
            alerts[n - 1].alert_id,
            alerts[n - 1].status,
        )
    }
}

/// What an engine knows once some alerts went out.
pub open spec fn after_sending(
    m: EngineModel,
    own: Seq<(Seq<char>, Seq<ActionModel>)>,
    alerts: Seq<AlertModel>,
    now: u64,
) -> EngineModel {
    EngineModel {
        responder: if m.config.auto_response_enabled {
            responded_all(
                m.responder,
                m.config.auto_response_triggers,
                own,
                alerts,
                now,
                alerts.len(),
            )
        } else {
            m.responder
        },
        states: with_states(m.states, alerts, alerts.len()),
        ..m
    }
}

/// The alerts on an event, with identifiers and severe enough.
pub open spec fn first_alerts(
    m: EngineModel,
    event: TelemetryEvent,
    json: Option<JsonModel>,
    ids: Seq<Seq<char>>,
    now: u64,
) -> Seq<AlertModel> {
    let all = drafts(m.rules, m.sightings, event, json, now);
    with_ids(all, ids.take(all.len() as int)).filter(severe(m.config.min_severity))
}

/// The alerts on an event and on the attacks that come out with it, as far as they
/// are severe enough.
pub open spec fn raised_alerts(
    m: EngineModel,
    event: TelemetryEvent,
    json: Option<JsonModel>,
    ids: Seq<Seq<char>>,
    now: u64,
) -> Seq<AlertModel> {
    let made = drafts(m.rules, m.sightings, event, json, now).len();
    let first = first_alerts(m, event, json, ids, now);
    let chains = attacks(m.correlation, event, json, first, now, first.len());
    first + with_ids(
        chain_alerts(chains, now),
        ids.subrange(made as int, (made + chains.len()) as int),
    ).filter(severe(m.config.min_severity))
}

/// Whether the risk of the machine is an alert by itself: it is high enough, and so
/// is the severity of such an alert.
pub open spec fn escalates(config: ConfigModel, risk: u64) -> bool {
    risk >= config.risk_escalation_threshold && level(AlertSeverity::High) >= level(
        config.min_severity,
    )
}

/// The risk of the machine once the alerts on an event were scored.
pub open spec fn risk_after(
    m: EngineModel,
    alerts: Seq<AlertModel>,
    decays: Seq<u32>,
    now: u64,
) -> u64 {
    decayed_risk(
        scored_all(m.scorer, alerts, now, alerts.len()).endpoint,
        decays_after(
            padded_decays(decays, m.scorer.endpoint.len()),
            alerts,
            alerts.len(),
        ),
    )
}

/// All alerts that an event raises: on the event, on attacks, and on the risk of the
/// machine.
pub open spec fn generated_alerts(
    m: EngineModel,
    event: TelemetryEvent,
    json: Option<JsonModel>,
    decays: Seq<u32>,
    ids: Seq<Seq<char>>,
    now: u64,
) -> Seq<AlertModel> {
    let raised = raised_alerts(m, event, json, ids, now);
    let risk = risk_after(m, raised, decays, now);
    if escalates(m.config, risk) {
        raised.push(escalation_alert(ids.last(), risk, now))
    } else {
        raised
    }
}

/// How many identifiers an event takes.
pub open spec fn ids_needed(
    m: EngineModel,
    event: TelemetryEvent,
    json: Option<JsonModel>,
    decays: Seq<u32>,
    ids: Seq<Seq<char>>,
    now: u64,
) -> nat {
    let made = drafts(m.rules, m.sightings, event, json, now).len();
    let first = first_alerts(m, event, json, ids, now);
    let chains = attacks(m.correlation, event, json, first, now, first.len());
    let risk = risk_after(m, raised_alerts(m, event, json, ids, now), decays, now);
    made + chains.len() + if escalates(m.config, risk) {
        1nat
    } else {
        0nat
    }
}

/// The alerts that are left once repetitions are held back. Where one stands for
/// those that were held back under other settings, it has to be severe enough too.
pub open spec fn unrepeated(m: EngineModel, alerts: Seq<AlertModel>, now: u64) -> Seq<AlertModel> {
    let left = if m.config.aggregation_enabled {
        let_through(
            m.windows,
            m.config.aggregation_window_seconds,
            alerts,
            now,
            alerts.len(),
        )
    } else {
        alerts
    };
    left.filter(severe(m.config.min_severity))
}

/// The alerts that go out on an event, without what is ordered about them.
pub open spec fn sent_alerts(
    m: EngineModel,
    event: TelemetryEvent,
    json: Option<JsonModel>,
    decays: Seq<u32>,
    ids: Seq<Seq<char>>,
    now: u64,
) -> Seq<AlertModel> {
    let left = unrepeated(m, generated_alerts(m, event, json, decays, ids, now), now);
    left.take(
        allowed(m.config.rate_limit_per_minute, m.limiter, now, left.len()) as int,
    )
}

/// The alerts that go out on an event, with what is ordered about them.
pub open spec fn outgoing_alerts(
    m: EngineModel,
    event: TelemetryEvent,
    json: Option<JsonModel>,
    decays: Seq<u32>,
    ids: Seq<Seq<char>>,
    now: u64,
) -> Seq<AlertModel> {
    answered_alerts(
        m,
        own_actions(m, json, ids, now),
        sent_alerts(m, event, json, decays, ids, now),
        now,
    )
}

/// What an engine knows after an event.
pub open spec fn engine_after(
    m: EngineModel,
    event: TelemetryEvent,
    json: Option<JsonModel>,
    decays: Seq<u32>,
    ids: Seq<Seq<char>>,
    now: u64,
) -> EngineModel {
    let first = first_alerts(m, event, json, ids, now);
    let raised = raised_alerts(m, event, json, ids, now);
    let all = generated_alerts(m, event, json, decays, ids, now);
    let sent = sent_alerts(m, event, json, decays, ids, now);
    let looked = EngineModel {
        correlation: correlated(m.correlation, event, json, first, now, first.len()),
        scorer: scored_all(m.scorer, raised, now, raised.len()),
        windows: if m.config.aggregation_enabled {
            aggregated(m.windows, m.config.aggregation_window_seconds, all, now, all.len())
        } else {
            m.windows
        },
        limiter: with_moments(m.limiter, now, sent.len()),
        sightings: seen_after(m.rules, m.sightings, json, now, m.rules.len()),
        ..m
    };
    after_sending(looked, own_actions(m, json, ids, now), sent, now)
}

/// Raises alerts on events, and follows them up.
pub struct AlertingEngine {
    pub config: AlertingConfig,
    pub rules: Vec<AlertRule>,
    pub correlation: CorrelationEngine,
    pub risk_scorer: RiskScorer,
    pub aggregator: AlertAggregator,
    pub channels: Vec<ChannelKind>,
    pub alert_states: TextMap<AlertStatus>,
    pub rate_limiter: Vec<u64>,
    pub responder: Responder,
    pub sightings: Vec<Sighting>,
}

impl View for AlertingEngine {
    type V = EngineModel;

    open spec fn view(&self) -> EngineModel {
        EngineModel {
            config: self.config@,
            rules: rules_view(self.rules@),
            correlation: self.correlation@,
            scorer: self.risk_scorer@,
            windows: self.aggregator@,
            channels: channels_view(self.channels@),
            states: self.alert_states@,
            limiter: self.rate_limiter@,
            responder: self.responder@,
            sightings: sightings_view(self.sightings@),
        }
    }
}

/// What an engine with some settings knows that saw nothing.
pub open spec fn new_engine(config: ConfigModel) -> EngineModel {
    EngineModel {
        config,
        rules: Seq::empty(),
        correlation: empty_engine(),
        scorer: ScorerModel { processes: Seq::empty(), endpoint: Seq::empty() },
        windows: Seq::empty(),
        channels: Seq::empty(),
        states: Map::empty(),
        limiter: Seq::empty(),
        responder: idle(),
        sightings: Seq::empty(),
    }
}

/// What holds of an engine at all times: no more risks are kept than may be, counts
/// have not run over, and no more alerts went out of late than may.
pub open spec fn sound(m: EngineModel) -> bool {
    &&& bounded(m.scorer)
    &&& counts_fit(m.windows)
    &&& m.limiter.len() <= m.config.rate_limit_per_minute
}

fn numeral_texts(numbers: &Vec<u32>) -> (r: Vec<String>)
    ensures
        texts(r@) == numerals(numbers@),
{
    let ghost all = numerals(numbers@);
    let mut r: Vec<String> = Vec::new();
    let mut i: usize = 0;
    assert(texts(r@) =~= all.take(0));
    while i < numbers.len()
        invariant
            i <= numbers@.len(),
            all == numerals(numbers@),
            texts(r@) == all.take(i as int),
        decreases numbers@.len() - i,
    {
        push_text(&mut r, decimal_text(numbers[i] as u64));
        assert(all.take(i + 1) =~= all.take(i as int).push(all[i as int]));
        i += 1;
    }
    assert(all.take(i as int) =~= all);
    r
}

fn push_all(list: &mut Vec<String>, more: &Vec<String>)
    ensures
        texts(final(list)@) == texts(old(list)@) + texts(more@),
{
    let ghost start = texts(list@);
    let ghost all = texts(more@);
    let mut i: usize = 0;
    assert(start =~= start + all.take(0));
    while i < more.len()
        invariant
            i <= more@.len(),
            all == texts(more@),
            texts(list@) == start + all.take(i as int),
        decreases more@.len() - i,
    {
        let ghost before = texts(list@);
        push_text(list, more[i].clone());
        assert(all[i as int] == more@[i as int]@);
        assert(before.push(all[i as int]) =~= start + all.take(i + 1));
        i += 1;
    }
    assert(all.take(i as int) =~= all);
}

fn create_chain_alert(chain: &AttackChain, now: u64) -> (r: Alert)
    ensures
        r@ == chain_alert(chain@, now),
{
    let ghost model = chain@;
    let count = decimal_text(chain.stages.len() as u64);
    let mut alert = Alert::new_as(
        String::new(),
        "Attack Chain Detected (".to_string().concat(count.as_str()).concat(" stages)"),
        "Correlated attack chain with ".to_string().concat(count.as_str()).concat(
            " stages detected",
        ),
        chain.overall_severity,
        now,
    );
    alert.confidence = chain.overall_confidence;
    let mut alert_ids: Vec<String> = Vec::new();
    let mut event_ids: Vec<String> = Vec::new();
    let mut i: usize = 0;
    assert(texts(alert_ids@) =~= Seq::empty());
    assert(texts(event_ids@) =~= Seq::empty());
    while i < chain.stages.len()
        invariant
            i <= chain.stages@.len(),
            model == chain@,
            texts(alert_ids@) == stage_alerts(model.stages, i as nat),
            texts(event_ids@) == stage_events(model.stages, i as nat),
        decreases chain.stages@.len() - i,
    {
        assert(model.stages[i as int] == chain.stages@[i as int]@);
        push_all(&mut alert_ids, &chain.stages[i].alert_ids);
        push_all(&mut event_ids, &chain.stages[i].event_ids);
        i += 1;
    }
    alert.related_alert_ids = alert_ids;
    alert.related_event_ids = event_ids;
    push_text(&mut alert.tags, "attack_chain".to_string());
    push_text(&mut alert.tags, "stages:".to_string().concat(count.as_str()));
    let pids = join(&numeral_texts(&chain.related_pids), ",");
    let ips = join(&chain.related_ips, ",");
    alert.metadata.insert("related_pids".to_string(), pids);
    alert.metadata.insert("related_ips".to_string(), ips);
    assert(alert@ =~= chain_alert(model, now)) by {
        assert(alert@.tags =~= chain_alert(model, now).tags);
    }
    alert
}

/// What is asked for, alert by alert.
spec fn lists_view(v: Seq<Vec<AutoResponseAction>>) -> Seq<Seq<ActionModel>> {
    v.map_values(|a: Vec<AutoResponseAction>| actions_view(a@))
}

fn name_actions(alerts: &Vec<Alert>, actions: Vec<Vec<AutoResponseAction>>) -> (r: Vec<
    (String, Vec<AutoResponseAction>),
>)
    requires
        actions@.len() <= alerts@.len(),
    ensures
        own_view(r@) == Seq::new(
            actions@.len(),
            |i: int| (alerts_view(alerts@)[i].alert_id, lists_view(actions@)[i]),
        ),
{
    let ghost goal = Seq::new(
        actions@.len(),
        |i: int| (alerts_view(alerts@)[i].alert_id, lists_view(actions@)[i]),
    );
    let mut r: Vec<(String, Vec<AutoResponseAction>)> = Vec::new();
    let mut i: usize = 0;
    assert(own_view(r@) =~= goal.take(0));
    while i < actions.len()
        invariant
            i <= actions@.len() <= alerts@.len(),
            goal == Seq::new(
                actions@.len(),
                |i: int| (alerts_view(alerts@)[i].alert_id, lists_view(actions@)[i]),
            ),
            own_view(r@) == goal.take(i as int),
        decreases actions@.len() - i,
    {
        let ghost before = own_view(r@);
        let entry = (alerts[i].alert_id.clone(), copy_actions(&actions[i]));
        let ghost model = (entry.0@, actions_view(entry.1@));
        r.push(entry);
        assert(alerts_view(alerts@)[i as int] == alerts@[i as int]@);
        assert(model == goal[i as int]);
        assert(own_view(r@) =~= before.push(model));
        assert(goal.take(i + 1) =~= goal.take(i as int).push(goal[i as int]));
        i += 1;
    }
    assert(goal.take(i as int) =~= goal);
    r
}

fn find_own(own: &Vec<(String, Vec<AutoResponseAction>)>, id: &str) -> (r: Option<usize>)
    ensures
        match r {
            Some(i) => i < own@.len() && asked_for(own_view(own@), id@) == actions_view(
                own@[i as int].1@,
            ),
            None => asked_for(own_view(own@), id@) == Seq::<ActionModel>::empty(),
        },
{
    let ghost q = of_id(id@);
    let ghost p = |e: (String, Vec<AutoResponseAction>)| q(of_own()(e));
    let meets = |e: &(String, Vec<AutoResponseAction>)| -> (b: bool)
        ensures
            b == q(of_own()(*e)),
        { same(e.0.as_str(), id) };
    let r = position_where(own, meets, Ghost(p));
    proof {
        lemma_first_index_map(own@, of_own(), p, q);
        lemma_first_index(own_view(own@), q);
    }
    r
}

fn draft_alerts(
    rules: &Vec<AlertRule>,
    seen: &mut Vec<Sighting>,
    event: &TelemetryEvent,
    json: Option<&JsonValue>,
    now: u64,
) -> (drafted: (Vec<Alert>, Vec<Vec<AutoResponseAction>>))
    ensures
        drafted.1@.len() <= drafted.0@.len(),
        lists_view(drafted.1@) == rule_actions(
            rules_view(rules@),
            sightings_view(old(seen)@),
            opt_json(json),
            now,
            rules@.len(),
        ),
        alerts_view(drafted.0@) == drafts(
            rules_view(rules@),
            sightings_view(old(seen)@),
            *event,
            opt_json(json),
            now,
        ),
        sightings_view(final(seen)@) == seen_after(
            rules_view(rules@),
            sightings_view(old(seen)@),
            opt_json(json),
            now,
            rules@.len(),
        ),
{
    let ghost start = sightings_view(seen@);
    let ghost all = rules_view(rules@);
    let ghost detections = detections_view(event.detections@);
    let ghost model = opt_json(json);
    let mut r: Vec<Alert> = Vec::new();
    let mut actions: Vec<Vec<AutoResponseAction>> = Vec::new();
    let mut i: usize = 0;
    assert(alerts_view(r@) =~= Seq::empty());
    assert(lists_view(actions@) =~= Seq::empty());
    while i < rules.len()
        invariant
            i <= rules@.len(),
            all == rules_view(rules@),
            model == opt_json(json),
            actions@.len() == r@.len(),
            lists_view(actions@) == rule_actions(all, start, model, now, i as nat),
            alerts_view(r@) == rule_drafts(all, start, *event, model, now, i as nat),
            sightings_view(seen@) == seen_after(all, start, model, now, i as nat),
        decreases rules@.len() - i,
    {
        assert(all[i as int] == rules@[i as int]@);
        if hold_against(seen, &rules[i], json, now) {
            let ghost before = alerts_view(r@);
            let id = String::new();
            assert(id@ =~= Seq::empty());
            let alert = rules[i].create_alert_as(id, event, now);
            let ghost next = alert@;
            r.push(alert);
            assert(alerts_view(r@) =~= before.push(next));
            let ghost held = lists_view(actions@);
            let list = copy_actions(&rules[i].auto_response);
            let ghost wanted = actions_view(list@);
            actions.push(list);
            assert(lists_view(actions@) =~= held.push(wanted));
        }
        i += 1;
    }
    let ghost first = alerts_view(r@);
    let mut k: usize = 0;
    assert(first =~= first + detection_drafts(*event, detections, now, 0));
    while k < event.detections.len()
        invariant
            k <= event.detections@.len(),
            actions@.len() <= r@.len(),
            detections == detections_view(event.detections@),
            alerts_view(r@) == first + detection_drafts(*event, detections, now, k as nat),
        decreases event.detections@.len() - k,
    {
        assert(detections[k as int] == event.detections@[k as int]@);
        let ghost before = alerts_view(r@);
        let id = String::new();
        assert(id@ =~= Seq::empty());
        let alert = Alert::from_detection_as(id, event, &event.detections[k], now);
        let ghost next = alert@;
        r.push(alert);
        assert(alerts_view(r@) =~= before.push(next));
        assert(before.push(next) =~= first + detection_drafts(
            *event,
            detections,
            now,
            (k + 1) as nat,
        ));
        k += 1;
    }
    (r, actions)
}

fn keep_severe(alerts: &mut Vec<Alert>, min: AlertSeverity)
    ensures
        alerts_view(final(alerts)@) == alerts_view(old(alerts)@).filter(severe(min)),
{
    let ghost before = alerts@;
    let ghost q = severe(min);
    let ghost p = |a: Alert| q(a@);
    let keep = |a: &Alert| -> (b: bool)
        ensures
            b == q(a@),
        { a.severity.level() >= min.level() };
    retain(alerts, keep, Ghost(p));
    proof {
        lemma_filter_map(before, of_alert(), p, q);
    }
}

impl AlertingEngine {
    /// Whether the engine is as it should be.
    pub open spec fn wf(&self) -> bool {
        &&& sound(self@)
        &&& self.aggregator.window_seconds == self.config.aggregation_window_seconds
    }

    /// An engine with some settings.
    pub fn new(config: AlertingConfig) -> (r: AlertingEngine)
        ensures
            r.wf(),
            r@ == new_engine(config@),
    {
        let aggregator = AlertAggregator::with_window(config.aggregation_window_seconds);
        let r = AlertingEngine {
            config,
            rules: Vec::new(),
            correlation: CorrelationEngine::new(),
            risk_scorer: RiskScorer::new(),
            aggregator,
            channels: Vec::new(),
            alert_states: TextMap::new(),
            rate_limiter: Vec::new(),
            responder: Responder::new(),
            sightings: Vec::new(),
        };
        assert(sightings_view(r.sightings@) =~= Seq::empty());
        assert(rules_view(r.rules@) =~= Seq::empty());
        assert(channels_view(r.channels@) =~= Seq::empty());
        r
    }

    /// Adds a channel.
    pub fn add_channel(&mut self, channel: ChannelKind)
        requires
            old(self).wf(),
        ensures
            final(self).wf(),
            final(self)@ == (EngineModel {
                channels: old(self)@.channels.push(channel@),
                ..old(self)@
            }),
    {
        let ghost before = self@.channels;
        let ghost model = channel@;
        self.channels.push(channel);
        assert(channels_view(self.channels@) =~= before.push(model));
    }

    /// Adds a rule.
    pub fn add_rule(&mut self, rule: AlertRule)
        requires
            old(self).wf(),
        ensures
            final(self).wf(),
            final(self)@ == (EngineModel { rules: old(self)@.rules.push(rule@), ..old(self)@ }),
    {
        let ghost before = self@.rules;
        let ghost model = rule@;
        self.rules.push(rule);
        assert(rules_view(self.rules@) =~= before.push(model));
    }

    /// Adds a correlation rule.
    pub fn add_correlation_rule(&mut self, rule: CorrelationRule)
        requires
            old(self).wf(),
        ensures
            final(self).wf(),
            final(self)@ == (EngineModel {
                correlation: CorrelationModel {
                    rules: old(self)@.correlation.rules.push(rule@),
                    ..old(self)@.correlation
                },
                ..old(self)@
            }),
    {
        self.correlation.add_rule(rule);
    }

    fn correlate_alerts(
        &mut self,
        event: &TelemetryEvent,
        json: Option<&JsonValue>,
        alerts: &Vec<Alert>,
        now: u64,
    ) -> (r: Vec<Alert>)
        requires
            old(self).wf(),
        ensures
            final(self).wf(),
            final(self)@ == (EngineModel {
                correlation: correlated(
                    old(self)@.correlation,
                    *event,
                    opt_json(json),
                    alerts_view(alerts@),
                    now,
                    alerts@.len(),
                ),
                ..old(self)@
            }),
            alerts_view(r@) == chain_alerts(
                attacks(
                    old(self)@.correlation,
                    *event,
                    opt_json(json),
                    alerts_view(alerts@),
                    now,
                    alerts@.len(),
                ),
                now,
            ),
    {
        let ghost start = self@.correlation;
        let ghost all = alerts_view(alerts@);
        let ghost model = opt_json(json);
        let mut r: Vec<Alert> = Vec::new();
        let mut i: usize = 0;
        assert(alerts_view(r@) =~= chain_alerts(attacks(start, *event, model, all, now, 0), now));
        while i < alerts.len()
            invariant
                i <= alerts@.len(),
                all == alerts_view(alerts@),
                model == opt_json(json),
                self.aggregator.window_seconds == self.config.aggregation_window_seconds,
                self@ == (EngineModel {
                    correlation: correlated(start, *event, model, all, now, i as nat),
                    ..old(self)@
                }),
                alerts_view(r@) == chain_alerts(
                    attacks(start, *event, model, all, now, i as nat),
                    now,
                ),
            decreases alerts@.len() - i,
        {
            assert(all[i as int] == alerts@[i as int]@);
            let ghost seen = attacks(start, *event, model, all, now, i as nat);
            let chains = self.correlation.correlate(
                event,
                json,
                Some(alerts[i].alert_id.as_str()),
                now,
            );
            let ghost found = chains_view(chains@);
            let mut k: usize = 0;
            assert(seen + found.take(0) =~= seen);
            while k < chains.len()
                invariant
                    k <= chains@.len(),
                    found == chains_view(chains@),
                    alerts_view(r@) == chain_alerts(seen + found.take(k as int), now),
                decreases chains@.len() - k,
            {
                assert(found[k as int] == chains@[k as int]@);
                let ghost before = alerts_view(r@);
                let alert = create_chain_alert(&chains[k], now);
                let ghost next = alert@;
                r.push(alert);
                proof {
                    assert(alerts_view(r@) =~= before.push(next));
                    assert(seen + found.take(k + 1) =~= (seen + found.take(k as int)).push(
                        found[k as int],
                    ));
                    assert(alerts_view(r@) =~= chain_alerts(seen + found.take(k + 1), now));
                }
                k += 1;
            }
            assert(found.take(k as int) =~= found);
            i += 1;
        }
        r
    }

    fn score_alerts(&mut self, alerts: &Vec<Alert>, decays: &[u32], now: u64) -> (risk: u64)
        requires
            old(self).wf(),
        ensures
            final(self).wf(),
            final(self)@ == (EngineModel {
                scorer: scored_all(
                    old(self)@.scorer,
                    alerts_view(alerts@),
                    now,
                    alerts@.len(),
                ),
                ..old(self)@
            }),
            risk == risk_after(old(self)@, alerts_view(alerts@), decays@, now),
    {
        let ghost start = self@.scorer;
        let ghost all = alerts_view(alerts@);
        let ghost padded = padded_decays(decays@, start.endpoint.len());
        let n: usize = self.risk_scorer.endpoint_score.len();
        let mut left: Vec<u32> = Vec::new();
        let mut j: usize = 0;
        assert(left@ =~= padded.take(0));
        while j < n
            invariant
                j <= n,
                n == start.endpoint.len(),
                padded == padded_decays(decays@, start.endpoint.len()),
                left@ == padded.take(j as int),
            decreases n - j,
        {
            let next: u32 = if j < decays.len() {
                decays[j]
            } else {
                ONE
            };
            left.push(next);
            assert(left@ =~= padded.take(j + 1));
            j += 1;
        }
        assert(left@ =~= padded);
        let mut i: usize = 0;
        while i < alerts.len()
            invariant
                i <= alerts@.len(),
                all == alerts_view(alerts@),
                self.aggregator.window_seconds == self.config.aggregation_window_seconds,
                self.wf(),
                self@ == (EngineModel {
                    scorer: scored_all(start, all, now, i as nat),
                    ..old(self)@
                }),
                left@ == decays_after(padded, all, i as nat),
                left@.len() <= MAX_ENDPOINT_ENTRIES,
            decreases alerts@.len() - i,
        {
            assert(all[i as int] == alerts@[i as int]@);
            match (&alerts[i].process_context, &alerts[i].source_detection) {
                (Some(context), Some(detection)) => {
                    self.risk_scorer.add_process_risk(
                        context.pid,
                        detection,
                        alerts[i].severity,
                        now,
                    );
                    left.push(ONE);
                    if left.len() > MAX_ENDPOINT_ENTRIES {
                        let ghost more = left@;
                        left.remove(0);
                        assert(left@ =~= more.drop_first());
                    }
                },
                _ => {},
            }
            i += 1;
        }
        self.risk_scorer.get_endpoint_risk(left.as_slice())
    }

    fn hold_back(&mut self, alerts: Vec<Alert>, now: u64) -> (r: Vec<Alert>)
        requires
            old(self).wf(),
        ensures
            final(self).wf(),
            final(self)@ == (EngineModel {
                windows: if old(self)@.config.aggregation_enabled {
                    aggregated(
                        old(self)@.windows,
                        old(self)@.config.aggregation_window_seconds,
                        alerts_view(alerts@),
                        now,
                        alerts@.len(),
                    )
                } else {
                    old(self)@.windows
                },
                ..old(self)@
            }),
            alerts_view(r@) == unrepeated(old(self)@, alerts_view(alerts@), now),
    {
        let min = self.config.min_severity;
        if !self.config.aggregation_enabled {
            let mut alerts = alerts;
            keep_severe(&mut alerts, min);
            return alerts;
        }
        let ghost all = alerts_view(alerts@);
        let ghost start = self@.windows;
        let ghost seconds = self@.config.aggregation_window_seconds;
        let n: usize = alerts.len();
        let mut rest = alerts;
        let mut r: Vec<Alert> = Vec::new();
        let mut i: usize = 0;
        assert(alerts_view(r@) =~= Seq::empty());
        assert(alerts_view(rest@) =~= all.skip(0));
        while i < n
            invariant
                i <= n,
                n == all.len(),
                alerts_view(rest@) == all.skip(i as int),
                self.wf(),
                seconds == self.config.aggregation_window_seconds,
                self@ == (EngineModel {
                    windows: aggregated(start, seconds, all, now, i as nat),
                    ..old(self)@
                }),
                alerts_view(r@) == let_through(start, seconds, all, now, i as nat),
            decreases n - i,
        {
            let ghost left = rest@;
            assert(alerts_view(left).len() == left.len());
            assert(alerts_view(left)[0] == all[i as int]);
            let alert = rest.remove(0);
            proof {
                assert(alert@ == all[i as int]);
                assert forall|k: int| 0 <= k < rest@.len() implies alerts_view(rest@)[k]
                    == all.skip(i + 1)[k] by {
                    assert(rest@[k] == left[k + 1]);
                    assert(alerts_view(left)[k + 1] == all.skip(i as int)[k + 1]);
                }
                assert(alerts_view(rest@) =~= all.skip(i + 1));
            }
            let ghost before = alerts_view(r@);
            match self.aggregator.process_at(alert, now) {
                Some(out) => {
                    let ghost next = out@;
                    r.push(out);
                    assert(alerts_view(r@) =~= before.push(next));
                },
                None => {},
            }
            i += 1;
        }
        keep_severe(&mut r, min);
        r
    }

    fn apply_rate_limit(&mut self, alerts: Vec<Alert>, now: u64) -> (r: Vec<Alert>)
        requires
            old(self).wf(),
        ensures
            final(self).wf(),
            ({
                let n = allowed(
                    old(self)@.config.rate_limit_per_minute,
                    old(self)@.limiter,
                    now,
                    alerts@.len(),
                );
                &&& alerts_view(r@) == alerts_view(alerts@).take(n as int)
                &&& final(self)@ == (EngineModel {
                    limiter: with_moments(old(self)@.limiter, now, n),
                    ..old(self)@
                })
            }),
    {
        let ghost goal = recent_moments(self@.limiter, now);
        let mut more = true;
        while more
            invariant
                recent_moments(self.rate_limiter@, now) == goal,
                !more ==> self.rate_limiter@ == goal,
                self.rate_limiter@.len() <= self.config.rate_limit_per_minute,
                self.wf(),
                self@ == (EngineModel { limiter: self.rate_limiter@, ..old(self)@ }),
            decreases self.rate_limiter@.len(), (if more { 1int } else { 0 }),
        {
            let ghost all = self.rate_limiter@;
            if self.rate_limiter.len() > 0 && time_between(self.rate_limiter[0], now) > RATE_WINDOW_MS {
                self.rate_limiter.remove(0);
                assert(self.rate_limiter@ =~= all.drop_first());
            } else {
                more = false;
            }
        }
        let taken: usize = self.rate_limiter.len();
        let free: u32 = self.config.rate_limit_per_minute - taken as u32;
        let total: usize = alerts.len();
        let count: usize = if free as u64 <= total as u64 {
            free as usize
        } else {
            total
        };
        let ghost n = allowed(
            old(self)@.config.rate_limit_per_minute,
            old(self)@.limiter,
            now,
            alerts@.len(),
        );
        assert(count == n);
        let mut i: usize = 0;
        assert(self.rate_limiter@ =~= goal + Seq::new(0, |k: int| now));
        while i < count
            invariant
                i <= count,
                taken + count <= self.config.rate_limit_per_minute,
                goal.len() == taken,
                self.rate_limiter@ == goal + Seq::new(i as nat, |k: int| now),
                self.wf(),
                self@ == (EngineModel { limiter: self.rate_limiter@, ..old(self)@ }),
            decreases count - i,
        {
            self.rate_limiter.push(now);
            assert(self.rate_limiter@ =~= goal + Seq::new((i + 1) as nat, |k: int| now));
            i += 1;
        }
        let ghost all = alerts_view(alerts@);
        let mut r = alerts;
        r.truncate(count);
        assert(alerts_view(r@) =~= all.take(count as int));
        r
    }

    fn follow_up(
        &mut self,
        alerts: Vec<Alert>,
        own: &Vec<(String, Vec<AutoResponseAction>)>,
        now: u64,
    ) -> (r: Vec<Alert>)
        requires
            old(self).wf(),
        ensures
            final(self).wf(),
            final(self)@ == after_sending(
                old(self)@,
                own_view(own@),
                alerts_view(alerts@),
                now,
            ),
            alerts_view(r@) == answered_alerts(
                old(self)@,
                own_view(own@),
                alerts_view(alerts@),
                now,
            ),
    {
        let ghost all = alerts_view(alerts@);
        let ghost asked = own_view(own@);
        let ghost start = self@;
        let ghost goal = answered_alerts(start, asked, all, now);
        let nothing: Vec<AutoResponseAction> = Vec::new();
        assert(actions_view(nothing@) =~= Seq::empty());
        let mut r = alerts;
        let mut i: usize = 0;
        assert forall|k: int| 0 <= k < r@.len() implies all[k] == (#[trigger] r@[k])@ by {
            assert(alerts_view(r@)[k] == r@[k]@);
        }
        if self.config.auto_response_enabled {
            while i < r.len()
                invariant
                    i <= r@.len() == all.len() == goal.len(),
                    asked == own_view(own@),
                    actions_view(nothing@) == Seq::<ActionModel>::empty(),
                    start.config.auto_response_enabled,
                    goal == answered_alerts(start, asked, all, now),
                    forall|k: int| 0 <= k < i ==> goal[k] == (#[trigger] r@[k])@,
                    forall|k: int| i <= k < r@.len() ==> all[k] == (#[trigger] r@[k])@,
                    self.wf(),
                    self@ == (EngineModel {
                        responder: responded_all(
                            start.responder,
                            start.config.auto_response_triggers,
                            asked,
                            all,
                            now,
                            i as nat,
                        ),
                        ..start
                    }),
                decreases r@.len() - i,
            {
                let mut alert = r.remove(i);
                assert(alert@ == all[i as int]);
                match find_own(own, alert.alert_id.as_str()) {
                    Some(k) => {
                        self.responder.answer(
                            &self.config.auto_response_triggers,
                            &own[k].1,
                            &mut alert,
                            now,
                        );
                    },
                    None => {
                        self.responder.answer(
                            &self.config.auto_response_triggers,
                            &nothing,
                            &mut alert,
                            now,
                        );
                    },
                }
                assert(alert@ == goal[i as int]);
                r.insert(i, alert);
                i += 1;
            }
        }
        assert(alerts_view(r@) =~= goal) by {
            assert forall|k: int| 0 <= k < r@.len() implies alerts_view(r@)[k] == goal[k] by {
                assert(r@[k]@ == goal[k]);
            }
        }
        let ghost middle = self@;
        let mut k: usize = 0;
        while k < r.len()
            invariant
                k <= r@.len() == all.len() == goal.len(),
                alerts_view(r@) == goal,
                goal == answered_alerts(start, asked, all, now),
                self.wf(),
                middle.states == start.states,
                self@ == (EngineModel {
                    states: with_states(start.states, all, k as nat),
                    ..middle
                }),
            decreases r@.len() - k,
        {
            assert(goal[k as int] == r@[k as int]@);
            self.alert_states.insert(r[k].alert_id.clone(), r[k].status);
            k += 1;
        }
        r
    }

    /// Takes an event, with how it is written out, if it can be, and how much is left
    /// of each risk of the machine. Gives the alerts that go out; what is to be done
    /// about them is ordered.
    pub fn process_event(
        &mut self,
        event: &TelemetryEvent,
        json: Option<&JsonValue>,
        decays: &[u32],
        ids: &mut IdSource,
        now: u64,
    ) -> (r: Vec<Alert>)
        requires
            old(self).wf(),
        ensures
            final(self).wf(),
            drawn(*old(ids), *final(ids)),
            ({
                let m = old(self)@;
                let written = opt_json(json);
                let taken = used(*old(ids), *final(ids));
                if m.config.enabled {
                    &&& taken.len() == ids_needed(m, *event, written, decays@, taken, now)
                    &&& alerts_view(r@) == outgoing_alerts(m, *event, written, decays@, taken, now)
                    &&& final(self)@ == engine_after(m, *event, written, decays@, taken, now)
                } else {
                    &&& taken.len() == 0
                    &&& r@.len() == 0
                    &&& final(self)@ == m
                }
            }),
            forall|i: int|
                0 <= i < r@.len() ==> level((#[trigger] r@[i]).severity) >= level(
                    old(self).config.min_severity,
                ),
            r@.len() <= old(self).config.rate_limit_per_minute,
    {
        let ghost m = self@;
        let ghost ids0 = *ids;
        proof {
            lemma_nothing_drawn(ids0);
        }
        if !self.config.enabled {
            return Vec::new();
        }
        let ghost written = opt_json(json);
        let (all, actions) = draft_alerts(&self.rules, &mut self.sightings, event, json, now);
        let ghost made = all@.len();
        let ghost asked = lists_view(actions@);
        let mut alerts = assign_ids(all, ids);
        let ghost ids1 = *ids;
        let ghost taken1 = used(ids0, ids1);
        assert(alerts_view(alerts@).len() == alerts@.len());
        assert(asked.len() <= made);
        let own = name_actions(&alerts, actions);
        assert(own_view(own@) =~= Seq::new(asked.len(), |i: int| (taken1[i], asked[i])));
        let min = self.config.min_severity;
        keep_severe(&mut alerts, min);
        let ghost first = alerts_view(alerts@);
        let more = self.correlate_alerts(event, json, &alerts, now);
        let ghost chains = attacks(m.correlation, *event, written, first, now, first.len());
        let mut chain_list = assign_ids(more, ids);
        let ghost ids2 = *ids;
        let ghost taken2 = used(ids1, ids2);
        proof {
            lemma_drawn_twice(ids0, ids1, ids2);
        }
        keep_severe(&mut chain_list, min);
        let ghost last = alerts_view(chain_list@);
        alerts.append(&mut chain_list);
        let ghost raised = alerts_view(alerts@);
        assert(raised =~= first + last);
        let ghost before_scoring = self@;
        let risk: u64 = self.score_alerts(&alerts, decays, now);
        let escalate = risk >= self.config.risk_escalation_threshold && AlertSeverity::High.level()
            >= min.level();
        if escalate {
            let id = ids.draw();
            let ghost ids3 = *ids;
            proof {
                lemma_drawn_twice(ids0, ids2, ids3);
            }
            let mut alert = Alert::new_as(
                id,
                "High Endpoint Risk Score".to_string(),
                "Endpoint risk score has reached ".to_string().concat(
                    tenths_text(round_to(risk, 100_000)).as_str(),
                ).concat("%"),
                AlertSeverity::High,
                now,
            );
            alert.risk_score = risk;
            push_text(&mut alert.tags, "risk_escalation".to_string());
            assert(alert@.tags =~= seq!["risk_escalation"@]);
            assert(alert@ =~= escalation_alert(id@, risk, now));
            let ghost next = alert@;
            alerts.push(alert);
            assert(alerts_view(alerts@) =~= raised.push(next));
        }
        let ghost taken = used(ids0, *ids);
        proof {
            assert(taken.take(made as int) =~= taken1);
            assert(first == first_alerts(m, *event, written, taken, now));
            assert(chains.len() == taken2.len());
            assert(taken.subrange(made as int, (made + chains.len()) as int) =~= taken2);
            assert(raised == raised_alerts(m, *event, written, taken, now));
            assert(risk == risk_after(m, raised, decays@, now));
            assert(alerts_view(alerts@) == generated_alerts(
                m,
                *event,
                written,
                decays@,
                taken,
                now,
            ));
        }
        let left = self.hold_back(alerts, now);
        let sent = self.apply_rate_limit(left, now);
        proof {
            assert forall|i: int| 0 <= i < asked.len() implies taken1[i] == taken[i] by {
                assert(taken.take(made as int)[i] == taken[i]);
            }
            assert(own_view(own@) =~= own_actions(m, written, taken, now));
        }
        let ghost out = sent_alerts(m, *event, written, decays@, taken, now);
        assert(alerts_view(sent@) == out);
        let ghost looked = self@;
        assert(looked.responder == m.responder && looked.config == m.config);
        let r = self.follow_up(sent, &own, now);
        proof {
            assert(answered_alerts(looked, own_view(own@), out, now) == answered_alerts(
                m,
                own_view(own@),
                out,
                now,
            ));
            lemma_outgoing(m, *event, written, decays@, taken, now);
            let all = outgoing_alerts(m, *event, written, decays@, taken, now);
            assert forall|i: int| 0 <= i < r@.len() implies level((#[trigger] r@[i]).severity)
                >= level(m.config.min_severity) by {
                assert(alerts_view(r@)[i] == r@[i]@);
                assert(all[i] == r@[i]@);
            }
            assert(alerts_view(r@).len() == r@.len());
        }
        r
    }

    /// Takes one detection on an event, and gives the alert on it, if it goes out.
    pub fn process_detection(
        &mut self,
        event: &TelemetryEvent,
        detection: &Detection,
        ids: &mut IdSource,
        now: u64,
    ) -> (r: Option<Alert>)
        requires
            old(self).wf(),
        ensures
            final(self).wf(),
            drawn(*old(ids), *final(ids)),
            ({
                let m = old(self)@;
                let taken = used(*old(ids), *final(ids));
                &&& taken.len() == if m.config.enabled {
                    1nat
                } else {
                    0nat
                }
                &&& alert_view(r) == detection_sent(m, *event, detection@, taken, now)
                &&& final(self)@ == after_detection(m, *event, detection@, taken, now)
            }),
    {
        let ghost m = self@;
        proof {
            lemma_nothing_drawn(*ids);
        }
        if !self.config.enabled {
            return None;
        }
        let id = ids.draw();
        let alert = Alert::from_detection_as(id, event, detection, now);
        let ghost model = alert@;
        if alert.severity.level() < self.config.min_severity.level() {
            return None;
        }
        let mut one: Vec<Alert> = Vec::new();
        one.push(alert);
        assert(alerts_view(one@) =~= seq![model]);
        let ghost n = allowed(m.config.rate_limit_per_minute, m.limiter, now, 1);
        let sent = self.apply_rate_limit(one, now);
        assert(alerts_view(sent@) == seq![model].take(n as int));
        assert(alerts_view(sent@).len() == sent@.len());
        if sent.len() == 0 {
            return None;
        }
        assert(alerts_view(sent@) =~= seq![model]);
        let own: Vec<(String, Vec<AutoResponseAction>)> = Vec::new();
        assert(own_view(own@) =~= Seq::empty());
        let mut r = self.follow_up(sent, &own, now);
        assert(alerts_view(r@).len() == r@.len());
        assert(alerts_view(r@)[0] == r@[0]@);
        r.pop()
    }

    /// Notes where an alert stands.
    pub fn update_status(&mut self, alert_id: &str, status: AlertStatus)
        requires
            old(self).wf(),
        ensures
            final(self).wf(),
            final(self)@ == (EngineModel {
                states: old(self)@.states.insert(alert_id@, status),
                ..old(self)@
            }),
    {
        self.alert_states.insert(alert_id.to_string(), status);
    }

    /// Where an alert stands, if it is known.
    pub fn get_status(&self, alert_id: &str) -> (r: Option<AlertStatus>)
        ensures
            r == if self@.states.contains_key(alert_id@) {
                Some(self@.states[alert_id@])
            } else {
                None::<AlertStatus>
            },
    {
        match self.alert_states.get(alert_id) {
            Some(status) => Some(*status),
            None => None,
        }
    }

    /// What waits for somebody to agree.
    pub fn get_pending_responses(&self) -> (r: Vec<(Alert, Vec<AutoResponseAction>)>)
        ensures
            all_pending(r@) == self@.responder.pending,
    {
        self.responder.waiting_list()
    }

    /// Orders what waits on an alert, if anything does.
    pub fn approve_response(&mut self, alert_id: &str) -> (r: bool)
        requires
            old(self).wf(),
        ensures
            final(self).wf(),
            r == (waiting(old(self)@.responder, alert_id@) is Some),
            final(self)@ == (EngineModel {
                responder: approved(old(self)@.responder, alert_id@),
                ..old(self)@
            }),
    {
        self.responder.approve(alert_id)
    }

    /// Drops what waits on an alert, if anything does.
    pub fn reject_response(&mut self, alert_id: &str) -> (r: bool)
        requires
            old(self).wf(),
        ensures
            final(self).wf(),
            r == (waiting(old(self)@.responder, alert_id@) is Some),
            final(self)@ == (EngineModel {
                responder: rejected(old(self)@.responder, alert_id@),
                ..old(self)@
            }),
    {
        self.responder.reject(alert_id)
    }

    /// Hands over what was ordered.
    pub fn take_orders(&mut self) -> (r: Vec<ResponseOrder>)
        requires
            old(self).wf(),
        ensures
            final(self).wf(),
            orders_view(r@) == old(self)@.responder.orders,
            final(self)@ == (EngineModel {
                responder: ResponderModel { orders: Seq::empty(), ..old(self)@.responder },
                ..old(self)@
            }),
    {
        self.responder.take_orders()
    }

    /// The risk of the machine, in millionths of a point.
    pub fn get_endpoint_risk(&self, decays: &[u32]) -> (r: u64)
        requires
            self.wf(),
        ensures
            r == decayed_risk(self@.scorer.endpoint, decays@),
    {
        self.risk_scorer.get_endpoint_risk(decays)
    }

    /// The risk of a process, in millionths of a point.
    pub fn get_process_risk(&self, pid: u32, decays: &[u32]) -> (r: u64)
        requires
            self.wf(),
        ensures
            r == decayed_risk(entries_of(self@.scorer.processes, pid), decays@),
    {
        self.risk_scorer.get_process_risk(pid, decays)
    }

    /// Gives an alert for each that was repeated, and forgets the repetitions.
    pub fn flush_aggregated(&mut self) -> (r: Vec<Alert>)
        requires
            old(self).wf(),
        ensures
            final(self).wf(),
            alerts_view(r@) == pending(old(self)@.windows, old(self)@.windows.len()),
            final(self)@ == (EngineModel { windows: Seq::empty(), ..old(self)@ }),
    {
        self.aggregator.flush()
    }

    /// Forgets risks that have faded.
    pub fn cleanup(&mut self, now: u64)
        requires
            old(self).wf(),
        ensures
            final(self).wf(),
            final(self)@ == (EngineModel {
                scorer: cleaned(old(self)@.scorer, now),
                ..old(self)@
            }),
    {
        self.risk_scorer.cleanup(now);
    }
}

/// The alert that goes out on one detection, if any does.
pub open spec fn detection_sent(
    m: EngineModel,
    event: TelemetryEvent,
    d: DetectionModel,
    ids: Seq<Seq<char>>,
    now: u64,
) -> Option<AlertModel> {
    let severity = event_severity(event.severity);
    if m.config.enabled && level(severity) >= level(m.config.min_severity) && allowed(
        m.config.rate_limit_per_minute,
        m.limiter,
        now,
        1,
    ) == 1 {
        Some(
            answered_alerts(
                m,
                Seq::empty(),
                seq![detection_alert(ids[0], event, d, now)],
                now,
            )[0],
        )
    } else {
        None
    }
}

/// What an engine knows after one detection.
pub open spec fn after_detection(
    m: EngineModel,
    event: TelemetryEvent,
    d: DetectionModel,
    ids: Seq<Seq<char>>,
    now: u64,
) -> EngineModel {
    let severity = event_severity(event.severity);
    if m.config.enabled && level(severity) >= level(m.config.min_severity) {
        let n = allowed(m.config.rate_limit_per_minute, m.limiter, now, 1);
        let limited = EngineModel { limiter: with_moments(m.limiter, now, n), ..m };
        if n == 1 {
            after_sending(
                limited,
                Seq::empty(),
                seq![detection_alert(ids[0], event, d, now)],
                now,
            )
        } else {
            limited
        }
    } else {
        m
    }
}

/// Puts an engine together.
pub struct AlertingEngineBuilder {
    pub config: AlertingConfig,
    pub channels: Vec<ChannelKind>,
    pub rules: Vec<AlertRule>,
    pub correlation_rules: Vec<CorrelationRule>,
}

/// What is put together.
#[verifier::ext_equal]
pub struct BuilderModel {
    pub config: ConfigModel,
    pub channels: Seq<ChannelModel>,
    pub rules: Seq<RuleModel>,
    pub correlation_rules: Seq<CorrelationRuleModel>,
}

impl View for AlertingEngineBuilder {
    type V = BuilderModel;

    open spec fn view(&self) -> BuilderModel {
        BuilderModel {
            config: self.config@,
            channels: channels_view(self.channels@),
            rules: rules_view(self.rules@),
            correlation_rules: crate::alert_rules::correlation_rules_view(self.correlation_rules@),
        }
    }
}

impl Default for AlertingEngineBuilder {
    fn default() -> (r: AlertingEngineBuilder)
        ensures
            r@.config == usual_config(true) || r@.config == usual_config(false),
            r@.channels.len() == 0,
            r@.rules.len() == 0,
            r@.correlation_rules.len() == 0,
    {
        AlertingEngineBuilder::new()
    }
}

impl AlertingEngineBuilder {
    /// Starts with the usual settings on this system.
    pub fn new() -> (r: AlertingEngineBuilder)
        ensures
            r@.config == usual_config(true) || r@.config == usual_config(false),
            r@.channels.len() == 0,
            r@.rules.len() == 0,
            r@.correlation_rules.len() == 0,
    {
        AlertingEngineBuilder {
            config: AlertingConfig::default(),
            channels: Vec::new(),
            rules: Vec::new(),
            correlation_rules: Vec::new(),
        }
    }

    /// With other settings.
    pub fn config(self, config: AlertingConfig) -> (r: AlertingEngineBuilder)
        ensures
            r@ == (BuilderModel { config: config@, ..self@ }),
    {
        AlertingEngineBuilder {
            config,
            channels: self.channels,
            rules: self.rules,
            correlation_rules: self.correlation_rules,
        }
    }

    /// With one more channel.
    pub fn add_channel(self, channel: ChannelKind) -> (r: AlertingEngineBuilder)
        ensures
            r@ == (BuilderModel { channels: self@.channels.push(channel@), ..self@ }),
    {
        let mut r = self;
        r.channels.push(channel);
        assert(channels_view(r.channels@) =~= self@.channels.push(channel@));
        r
    }

    /// With one more rule.
    pub fn add_rule(self, rule: AlertRule) -> (r: AlertingEngineBuilder)
        ensures
            r@ == (BuilderModel { rules: self@.rules.push(rule@), ..self@ }),
    {
        let mut r = self;
        r.rules.push(rule);
        assert(rules_view(r.rules@) =~= self@.rules.push(rule@));
        r
    }

    /// With one more correlation rule.
    pub fn add_correlation_rule(self, rule: CorrelationRule) -> (r: AlertingEngineBuilder)
        ensures
            r@ == (BuilderModel {
                correlation_rules: self@.correlation_rules.push(rule@),
                ..self@
            }),
    {
        let mut r = self;
        r.correlation_rules.push(rule);
        assert(crate::alert_rules::correlation_rules_view(r.correlation_rules@)
            =~= self@.correlation_rules.push(rule@));
        r
    }

    /// With alerts written to a file.
    pub fn with_file_logging(self, path: &str) -> (r: AlertingEngineBuilder)
        ensures
            r@ == (BuilderModel {
                config: ConfigModel {
                    file_logging_enabled: true,
                    file_log_path: path@,
                    ..self@.config
                },
                channels: self@.channels.push(ChannelModel::File { path: path@ }),
                ..self@
            }),
    {
        let mut r = self.add_channel(ChannelKind::File(FileChannel::new(path)));
        r.config.file_logging_enabled = true;
        r.config.file_log_path = path.to_string();
        r
    }

    /// With alerts written to the event log of Windows.
    pub fn with_windows_event_log(self, source: &str) -> (r: AlertingEngineBuilder)
        ensures
            r@ == (BuilderModel {
                config: ConfigModel { local_log_enabled: true, ..self@.config },
                channels: self@.channels.push(
                    ChannelModel::WindowsEventLog { source_name: source@ },
                ),
                ..self@
            }),
    {
        let mut r = self.add_channel(
            ChannelKind::WindowsEventLog(WindowsEventLogChannel::new(source)),
        );
        r.config.local_log_enabled = true;
        r
    }

    /// With alerts written to the log of the system.
    pub fn with_syslog(self, facility: &str) -> (r: AlertingEngineBuilder)
        ensures
            r@ == (BuilderModel {
                config: ConfigModel { local_log_enabled: true, ..self@.config },
                channels: self@.channels.push(ChannelModel::Syslog { facility: facility@ }),
                ..self@
            }),
    {
        let mut r = self.add_channel(ChannelKind::Syslog(SyslogChannel::new(facility)));
        r.config.local_log_enabled = true;
        r
    }

    /// The engine that was put together.
    pub fn build(self) -> (r: AlertingEngine)
        ensures
            r.wf(),
            r@ == (EngineModel {
                channels: self@.channels,
                rules: self@.rules,
                correlation: CorrelationModel {
                    rules: self@.correlation_rules,
                    ..empty_engine()
                },
                ..new_engine(self@.config)
            }),
    {
        let mut engine = AlertingEngine::new(self.config);
        engine.channels = self.channels;
        engine.rules = self.rules;
        engine.correlation.rules = self.correlation_rules;
        engine
    }
}

/// No more alerts go out on an event than the limit allows in a minute.
pub proof fn law_alerts_keep_to_the_limit(
    m: EngineModel,
    event: TelemetryEvent,
    json: Option<JsonModel>,
    decays: Seq<u32>,
    ids: Seq<Seq<char>>,
    now: u64,
)
    requires
        sound(m),
    ensures
        sent_alerts(m, event, json, decays, ids, now).len() + recent_moments(m.limiter, now).len()
            <= m.config.rate_limit_per_minute,
        engine_after(m, event, json, decays, ids, now).limiter.len()
            <= m.config.rate_limit_per_minute,
{
    lemma_recent_moments(m.limiter, now);
}

proof fn lemma_recent_moments(moments: Seq<u64>, now: u64)
    ensures
        recent_moments(moments, now).len() <= moments.len(),
    decreases moments.len(),
{
    if moments.len() > 0 {
        lemma_recent_moments(moments.drop_first(), now);
    }
}

/// Whatever goes out on an event is severe enough, be it on the event, on an attack
/// or on the risk of the machine.
pub proof fn law_weak_alerts_are_dropped(
    m: EngineModel,
    event: TelemetryEvent,
    json: Option<JsonModel>,
    decays: Seq<u32>,
    ids: Seq<Seq<char>>,
    now: u64,
    i: int,
)
    requires
        0 <= i < sent_alerts(m, event, json, decays, ids, now).len(),
    ensures
        level(sent_alerts(m, event, json, decays, ids, now)[i].severity) >= level(
            m.config.min_severity,
        ),
{
    let alerts = generated_alerts(m, event, json, decays, ids, now);
    let left = if m.config.aggregation_enabled {
        let_through(m.windows, m.config.aggregation_window_seconds, alerts, now, alerts.len())
    } else {
        alerts
    };
    let q = severe(m.config.min_severity);
    lemma_filter_members(left, q);
    let kept = unrepeated(m, alerts, now);
    assert(sent_alerts(m, event, json, decays, ids, now)[i] == kept[i]);
    assert(q(kept[i]));
}

proof fn lemma_outgoing(
    m: EngineModel,
    event: TelemetryEvent,
    json: Option<JsonModel>,
    decays: Seq<u32>,
    ids: Seq<Seq<char>>,
    now: u64,
)
    requires
        sound(m),
    ensures
        ({
            let all = outgoing_alerts(m, event, json, decays, ids, now);
            &&& all.len() <= m.config.rate_limit_per_minute
            &&& forall|i: int|
                0 <= i < all.len() ==> level((#[trigger] all[i]).severity) >= level(
                    m.config.min_severity,
                )
        }),
{
    law_alerts_keep_to_the_limit(m, event, json, decays, ids, now);
    let all = outgoing_alerts(m, event, json, decays, ids, now);
    let sent = sent_alerts(m, event, json, decays, ids, now);
    assert(all.len() == sent.len());
    assert forall|i: int| 0 <= i < all.len() implies level((#[trigger] all[i]).severity) >= level(
        m.config.min_severity,
    ) by {
        law_weak_alerts_are_dropped(m, event, json, decays, ids, now, i);
        assert(all[i].severity == sent[i].severity);
    }
}

/// Where an alert stands is known once it went out.
pub proof fn law_sent_alerts_are_known(
    m: EngineModel,
    own: Seq<(Seq<char>, Seq<ActionModel>)>,
    alerts: Seq<AlertModel>,
    now: u64,
    i: int,
)
    requires
        0 <= i < alerts.len(),
    ensures
        after_sending(m, own, alerts, now).states.contains_key(alerts[i].alert_id),
{
    lemma_states(m.states, alerts, alerts.len(), i);
}

proof fn lemma_states(
    states: Map<Seq<char>, AlertStatus>,
    alerts: Seq<AlertModel>,
    n: nat,
    i: int,
)
    requires
        0 <= i < n <= alerts.len(),
    ensures
        with_states(states, alerts, n).contains_key(alerts[i].alert_id),
    decreases n,
{
    if i < n - 1 {
        lemma_states(states, alerts, (n - 1) as nat, i);
    }
}

/// What was noted of an alert is what is found, and nothing else changes.
pub proof fn law_status_is_what_was_noted(
    states: Map<Seq<char>, AlertStatus>,
    id: Seq<char>,
    other: Seq<char>,
    status: AlertStatus,
)
    ensures
        states.insert(id, status)[id] == status,
        other != id ==> states.insert(id, status).contains_key(other) == states.contains_key(other),
        other != id && states.contains_key(other) ==> states.insert(id, status)[other]
            == states[other],
{
}

/// Holding back repetitions never adds an alert.
pub proof fn law_holding_back_never_adds(m: EngineModel, alerts: Seq<AlertModel>, now: u64)
    ensures
        unrepeated(m, alerts, now).len() <= alerts.len(),
{
    let left = let_through(
        m.windows,
        m.config.aggregation_window_seconds,
        alerts,
        now,
        alerts.len(),
    );
    lemma_let_through(
        m.windows,
        m.config.aggregation_window_seconds,
        alerts,
        now,
        alerts.len(),
    );
    lemma_filter_shortens(left, severe(m.config.min_severity));
    lemma_filter_shortens(alerts, severe(m.config.min_severity));
}

proof fn lemma_filter_shortens(alerts: Seq<AlertModel>, q: spec_fn(AlertModel) -> bool)
    ensures
        alerts.filter(q).len() <= alerts.len(),
    decreases alerts.len(),
{
    reveal(Seq::filter);
    if alerts.len() > 0 {
        lemma_filter_shortens(alerts.drop_last(), q);
    }
}

proof fn lemma_let_through(
    windows: Seq<WindowModel>,
    window_seconds: u64,
    alerts: Seq<AlertModel>,
    now: u64,
    n: nat,
)
    ensures
        let_through(windows, window_seconds, alerts, now, n).len() <= n,
    decreases n,
{
    if n > 0 {
        lemma_let_through(windows, window_seconds, alerts, now, (n - 1) as nat);
    }
}

/// A machine at high risk is an alert by itself, unless only critical ones are asked
/// for.
pub proof fn law_high_risk_is_an_alert(
    m: EngineModel,
    event: TelemetryEvent,
    json: Option<JsonModel>,
    decays: Seq<u32>,
    ids: Seq<Seq<char>>,
    now: u64,
)
    requires
        risk_after(m, raised_alerts(m, event, json, ids, now), decays, now)
            >= m.config.risk_escalation_threshold,
        m.config.min_severity != AlertSeverity::Critical,
    ensures
        ({
            let last = generated_alerts(m, event, json, decays, ids, now).last();
            last.severity == AlertSeverity::High && last.risk_score
                >= m.config.risk_escalation_threshold
        }),
{
}

proof fn lemma_rule_drafts(
    rules: Seq<RuleModel>,
    seen: Seq<SightingModel>,
    event: TelemetryEvent,
    json: Option<JsonModel>,
    now: u64,
    n: nat,
    a: AlertModel,
)
    requires
        n <= rules.len(),
    ensures
        rule_drafts(rules, seen, event, json, now, n).contains(a) <==> exists|i: int|
            0 <= i < n && raises(
                seen_after(rules, seen, json, now, i as nat),
                #[trigger] rules[i],
                json,
                now,
            ) && a == rule_alert(rules[i], Seq::empty(), event, now),
    decreases n,
{
    if n > 0 {
        lemma_rule_drafts(rules, seen, event, json, now, (n - 1) as nat, a);
        let before = rule_drafts(rules, seen, event, json, now, (n - 1) as nat);
        let after = rule_drafts(rules, seen, event, json, now, n);
        let taken = raises(
            seen_after(rules, seen, json, now, (n - 1) as nat),
            rules[n - 1],
            json,
            now,
        );
        if before.contains(a) {
            let k = choose|k: int| 0 <= k < before.len() && before[k] == a;
            assert(after[k] == a);
            let i = choose|i: int|
                0 <= i < n - 1 && raises(
                    seen_after(rules, seen, json, now, i as nat),
                    #[trigger] rules[i],
                    json,
                    now,
                ) && a == rule_alert(rules[i], Seq::empty(), event, now);
            assert(a == rule_alert(rules[i], Seq::empty(), event, now));
        }
        if taken {
            assert(after.last() == rule_alert(rules[n - 1], Seq::empty(), event, now));
            if after.contains(a) {
                let k = choose|k: int| 0 <= k < after.len() && after[k] == a;
                if k < before.len() {
                    assert(before[k] == a);
                } else {
                    assert(a == rule_alert(rules[n - 1], Seq::empty(), event, now));
                }
            }
        }
        if exists|i: int|
            0 <= i < n && raises(
                seen_after(rules, seen, json, now, i as nat),
                #[trigger] rules[i],
                json,
                now,
            ) && a == rule_alert(rules[i], Seq::empty(), event, now) {
            let i = choose|i: int|
                0 <= i < n && raises(
                    seen_after(rules, seen, json, now, i as nat),
                    #[trigger] rules[i],
                    json,
                    now,
                ) && a == rule_alert(rules[i], Seq::empty(), event, now);
            if i < n - 1 {
                assert(a == rule_alert(rules[i], Seq::empty(), event, now));
                assert(before.contains(a));
            }
        }
    }
}

proof fn lemma_detection_drafts(
    event: TelemetryEvent,
    detections: Seq<DetectionModel>,
    now: u64,
    n: nat,
)
    requires
        n <= detections.len(),
    ensures
        detection_drafts(event, detections, now, n).len() == n,
        forall|i: int|
            0 <= i < n ==> #[trigger] detection_drafts(event, detections, now, n)[i]
                == detection_alert(Seq::empty(), event, detections[i], now),
    decreases n,
{
    if n > 0 {
        lemma_detection_drafts(event, detections, now, (n - 1) as nat);
    }
}

/// Every rule that is on and matches an event raises an alert on it, where the rule does
/// not count events; and so does every detection on the event.
pub proof fn law_matches_and_detections_raise_alerts(
    rules: Seq<RuleModel>,
    seen: Seq<SightingModel>,
    event: TelemetryEvent,
    json: Option<JsonModel>,
    now: u64,
)
    ensures
        ({
            let made = drafts(rules, seen, event, json, now);
            let detections = detections_view(event.detections@);
            &&& forall|i: int|
                0 <= i < rules.len() && (#[trigger] rules[i]).enabled
                    && rules[i].time_condition is None && group_holds(rules[i].conditions, json)
                    ==> made.contains(rule_alert(rules[i], Seq::empty(), event, now))
            &&& forall|i: int|
                0 <= i < detections.len() ==> made.contains(
                    detection_alert(Seq::empty(), event, #[trigger] detections[i], now),
                )
        }),
{
    let made = drafts(rules, seen, event, json, now);
    let detections = detections_view(event.detections@);
    let first = rule_drafts(rules, seen, event, json, now, rules.len());
    let second = detection_drafts(event, detections, now, detections.len());
    lemma_detection_drafts(event, detections, now, detections.len());
    assert forall|i: int|
        0 <= i < rules.len() && (#[trigger] rules[i]).enabled && rules[i].time_condition is None
            && group_holds(rules[i].conditions, json) implies made.contains(
        rule_alert(rules[i], Seq::empty(), event, now),
    ) by {
        let a = rule_alert(rules[i], Seq::empty(), event, now);
        lemma_rule_drafts(rules, seen, event, json, now, rules.len(), a);
        assert(raises(seen_after(rules, seen, json, now, i as nat), rules[i], json, now));
        let k = choose|k: int| 0 <= k < first.len() && first[k] == a;
        assert(made[k] == a);
    }
    assert forall|i: int| 0 <= i < detections.len() implies made.contains(
        detection_alert(Seq::empty(), event, #[trigger] detections[i], now),
    ) by {
        assert(made[first.len() + i] == second[i]);
    }
}

/// An event that no rule matches and without detections raises no alert.
pub proof fn law_quiet_events_raise_nothing(
    rules: Seq<RuleModel>,
    seen: Seq<SightingModel>,
    event: TelemetryEvent,
    json: Option<JsonModel>,
    now: u64,
)
    requires
        event.detections@.len() == 0,
        forall|i: int|
            0 <= i < rules.len() ==> !((#[trigger] rules[i]).enabled && group_holds(
                rules[i].conditions,
                json,
            )),
    ensures
        drafts(rules, seen, event, json, now).len() == 0,
{
    let first = rule_drafts(rules, seen, event, json, now, rules.len());
    if first.len() > 0 {
        let a = first[0];
        assert(first.contains(a));
        lemma_rule_drafts(rules, seen, event, json, now, rules.len(), a);
        let i = choose|i: int|
            0 <= i < rules.len() && raises(
                seen_after(rules, seen, json, now, i as nat),
                #[trigger] rules[i],
                json,
                now,
            ) && a == rule_alert(rules[i], Seq::empty(), event, now);
        assert(rules[i].enabled && group_holds(rules[i].conditions, json));
    }
}

proof fn lemma_all_kept(alerts: Seq<AlertModel>, p: spec_fn(AlertModel) -> bool)
    requires
        forall|i: int| 0 <= i < alerts.len() ==> p(#[trigger] alerts[i]),
    ensures
        alerts.filter(p) == alerts,
    decreases alerts.len(),
{
    reveal(Seq::filter);
    if alerts.len() > 0 {
        let rest = alerts.drop_last();
        assert(forall|i: int| 0 <= i < rest.len() ==> #[trigger] rest[i] == alerts[i]);
        lemma_all_kept(rest, p);
        assert(p(alerts[alerts.len() - 1]));
        assert(alerts.filter(p) =~= alerts);
    } else {
        assert(alerts.filter(p) =~= alerts);
    }
}

proof fn lemma_both_kept(
    first: Seq<AlertModel>,
    second: Seq<AlertModel>,
    p: spec_fn(AlertModel) -> bool,
    i: int,
)
    requires
        0 <= i < (first.filter(p) + second.filter(p)).len(),
    ensures
        p((first.filter(p) + second.filter(p))[i]),
{
    lemma_filter_members(first, p);
    lemma_filter_members(second, p);
    if i < first.filter(p).len() {
        assert(p(first.filter(p)[i]));
    } else {
        assert(p(second.filter(p)[i - first.filter(p).len()]));
    }
}

#[verifier::spinoff_prover]
#[verifier::rlimit(30)]
proof fn lemma_generated_are_severe(
    m: EngineModel,
    event: TelemetryEvent,
    json: Option<JsonModel>,
    decays: Seq<u32>,
    ids: Seq<Seq<char>>,
    now: u64,
)
    ensures
        ({
            let all = generated_alerts(m, event, json, decays, ids, now);
            forall|i: int|
                0 <= i < all.len() ==> severe(m.config.min_severity)(#[trigger] all[i])
        }),
{
    let p = severe(m.config.min_severity);
    let all = generated_alerts(m, event, json, decays, ids, now);
    let raised = raised_alerts(m, event, json, ids, now);
    assert forall|i: int| 0 <= i < all.len() implies p(#[trigger] all[i]) by {
        if i < raised.len() {
            let made = drafts(m.rules, m.sightings, event, json, now);
            let first = first_alerts(m, event, json, ids, now);
            let chains = attacks(m.correlation, event, json, first, now, first.len());
            lemma_both_kept(
                with_ids(made, ids.take(made.len() as int)),
                with_ids(
                    chain_alerts(chains, now),
                    ids.subrange(made.len() as int, (made.len() + chains.len()) as int),
                ),
                p,
                i,
            );
            assert(all[i] == raised[i]);
        }
    }
}

proof fn lemma_all_sent(m: EngineModel, alerts: Seq<AlertModel>, now: u64)
    requires
        !m.config.aggregation_enabled,
        recent_moments(m.limiter, now).len() + alerts.len() <= m.config.rate_limit_per_minute,
        forall|i: int|
            0 <= i < alerts.len() ==> severe(m.config.min_severity)(#[trigger] alerts[i]),
    ensures
        ({
            let left = unrepeated(m, alerts, now);
            left.take(
                allowed(m.config.rate_limit_per_minute, m.limiter, now, left.len()) as int,
            ) == alerts
        }),
{
    lemma_all_kept(alerts, severe(m.config.min_severity));
    assert(alerts.take(alerts.len() as int) =~= alerts);
}

/// Where repetitions are not held back and the limit leaves room, everything that an event
/// raises goes out.
#[verifier::spinoff_prover]
#[verifier::rlimit(60)]
pub proof fn law_nothing_is_lost(
    m: EngineModel,
    event: TelemetryEvent,
    json: Option<JsonModel>,
    decays: Seq<u32>,
    ids: Seq<Seq<char>>,
    now: u64,
)
    requires
        !m.config.aggregation_enabled,
        recent_moments(m.limiter, now).len() + generated_alerts(
            m,
            event,
            json,
            decays,
            ids,
            now,
        ).len() <= m.config.rate_limit_per_minute,
    ensures
        sent_alerts(m, event, json, decays, ids, now) == generated_alerts(
            m,
            event,
            json,
            decays,
            ids,
            now,
        ),
{
    let all = generated_alerts(m, event, json, decays, ids, now);
    lemma_generated_are_severe(m, event, json, decays, ids, now);
    lemma_all_sent(m, all, now);
}

/// No more alerts go out than the limit leaves room for in a minute, and as many as it
/// does; what went out longer ago than a minute takes no room.
pub proof fn law_the_limit_is_used_up(limit: u32, moments: Seq<u64>, now: u64, n: nat)
    ensures
        ({
            let taken = recent_moments(moments, now);
            &&& taken.len() >= limit ==> allowed(limit, moments, now, n) == 0
            &&& taken.len() < limit && taken.len() + n >= limit ==> allowed(limit, moments, now, n)
                == limit - taken.len()
            &&& taken.len() + n < limit ==> allowed(limit, moments, now, n) == n
            &&& taken.len() <= moments.len()
            &&& taken == moments.skip(moments.len() - taken.len())
            &&& taken.len() > 0 ==> now - taken[0] <= 60_000
            &&& forall|i: int|
                0 <= i < moments.len() - taken.len() ==> now - (#[trigger] moments[i]) > 60_000
        }),
    decreases moments.len(),
{
    let taken = recent_moments(moments, now);
    if moments.len() > 0 && elapsed(moments[0], now) > RATE_WINDOW_MS {
        let rest = moments.drop_first();
        law_the_limit_is_used_up(limit, rest, now, n);
        assert(taken =~= moments.skip(moments.len() - taken.len()));
        assert forall|i: int| 0 <= i < moments.len() - taken.len() implies now - (
        #[trigger] moments[i]) > 60_000 by {
            if i > 0 {
                assert(rest[i - 1] == moments[i]);
            }
        }
    } else {
        assert(moments.skip(0) =~= moments);
    }
}

/// One detection goes out as an alert exactly where alerts are on, the event is severe
/// enough and the limit leaves room.
pub proof fn law_detections_go_out(
    m: EngineModel,
    event: TelemetryEvent,
    d: DetectionModel,
    ids: Seq<Seq<char>>,
    now: u64,
)
    ensures
        detection_sent(m, event, d, ids, now) is Some <==> m.config.enabled && level(
            event_severity(event.severity),
        ) >= level(m.config.min_severity) && recent_moments(m.limiter, now).len()
            < m.config.rate_limit_per_minute,
        detection_sent(m, event, d, ids, now) matches Some(a) ==> a.alert_id == ids[0] && a.title
            == d.rule_name && a.source_detection == Some(d),
{
    let one = seq![detection_alert(ids[0], event, d, now)];
    if m.config.auto_response_enabled {
        assert(answered_alerts(m, Seq::empty(), one, now)[0] == answered_alert(
            m.responder,
            m.config.auto_response_triggers,
            Seq::empty(),
            one,
            now,
            0,
        ));
    }
}

proof fn lemma_stage_ids(stages: Seq<StageModel>, n: nat, i: int, k: int)
    requires
        n <= stages.len(),
        0 <= i < n,
    ensures
        0 <= k < stages[i].event_ids.len() ==> stage_events(stages, n).contains(
            stages[i].event_ids[k],
        ),
        0 <= k < stages[i].alert_ids.len() ==> stage_alerts(stages, n).contains(
            stages[i].alert_ids[k],
        ),
    decreases n,
{
    let m = (n - 1) as nat;
    let (a, b) = (stage_events(stages, m), stage_alerts(stages, m));
    let (c, d) = (stage_events(stages, n), stage_alerts(stages, n));
    if i < m {
        lemma_stage_ids(stages, m, i, k);
        if 0 <= k < stages[i].event_ids.len() {
            let j = choose|j: int| 0 <= j < a.len() && a[j] == stages[i].event_ids[k];
            assert(c[j] == a[j]);
        }
        if 0 <= k < stages[i].alert_ids.len() {
            let j = choose|j: int| 0 <= j < b.len() && b[j] == stages[i].alert_ids[k];
            assert(d[j] == b[j]);
        }
    } else {
        if 0 <= k < stages[i].event_ids.len() {
            assert(c[a.len() + k] == stages[i].event_ids[k]);
        }
        if 0 <= k < stages[i].alert_ids.len() {
            assert(d[b.len() + k] == stages[i].alert_ids[k]);
        }
    }
}

/// The alert on an attack is as severe and as sure as the attack, and names the events and
/// the alerts of every stage.
pub proof fn law_alerts_on_attacks_name_their_stages(chain: ChainModel, now: u64, i: int, k: int)
    requires
        0 <= i < chain.stages.len(),
    ensures
        chain_alert(chain, now).severity == chain.overall_severity,
        chain_alert(chain, now).confidence == chain.overall_confidence,
        chain_alert(chain, now).created_at == now,
        0 <= k < chain.stages[i].event_ids.len() ==> chain_alert(
            chain,
            now,
        ).related_event_ids.contains(chain.stages[i].event_ids[k]),
        0 <= k < chain.stages[i].alert_ids.len() ==> chain_alert(
            chain,
            now,
        ).related_alert_ids.contains(chain.stages[i].alert_ids[k]),
        chain_alert(chain, now).tags.contains("attack_chain"@),
{
    lemma_stage_ids(chain.stages, chain.stages.len(), i, k);
    assert(chain_alert(chain, now).tags[0] == "attack_chain"@);
}

/// Where the risk of the machine reaches the threshold, an alert says so, with the risk as
/// its score, where alerts of a high severity go out; below the threshold none does.
pub proof fn law_high_risk_is_reported(
    m: EngineModel,
    event: TelemetryEvent,
    json: Option<JsonModel>,
    decays: Seq<u32>,
    ids: Seq<Seq<char>>,
    now: u64,
)
    ensures
        ({
            let raised = raised_alerts(m, event, json, ids, now);
            let all = generated_alerts(m, event, json, decays, ids, now);
            let risk = risk_after(m, raised, decays, now);
            let reached = risk >= m.config.risk_escalation_threshold && level(
                m.config.min_severity,
            ) <= 3;
            &&& !reached ==> all == raised
            &&& reached ==> all.drop_last() == raised && all.len() == raised.len() + 1
                && all.last().risk_score == risk && all.last().severity == AlertSeverity::High
                && all.last().alert_id == ids.last()
        }),
{
}

} // verus!
