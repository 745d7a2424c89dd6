//! Events that belong together, and the attacks that they make up.
use vstd::prelude::*;

use crate::alert::{Alert, AlertSeverity};
use crate::alert_rules::{
    correlation_rules_view, group_holds, lemma_groups, CorrelationRule, CorrelationRuleModel,
};
use crate::collect::{
    first_index, lemma_filter_distinct, lemma_filter_map, lemma_filter_members, lemma_first_index,
    lemma_first_index_is, lemma_first_index_map, one_if, position_where, retain,
};
use crate::digest::{hex_digits, hex_encode};
use crate::ids::{drawn, lemma_drawn_twice, lemma_nothing_drawn, used, IdSource};
use crate::json::{opt_json, JsonModel, JsonValue};
use crate::telemetry::{EventPayload, TelemetryEvent};
use crate::text::{
    begins, copies, decimal, decimal_text, holds, opt_copy, opt_text, push_text, same, starts_with,
    texts,
};
use crate::textset::with_member;

verus! {

/// For how many milliseconds a session lives after its last event.
pub const SESSION_LIFETIME_MS: u64 = 3_600_000;

/// For how many milliseconds an event is kept.
pub const BUFFER_LIFETIME_MS: u64 = 300_000;

/// How many events a session keeps.
pub const MAX_SESSION_EVENTS: usize = 1_000;

/// One step of an attack.
pub struct AttackChainStage {
    pub stage_name: String,
    pub alert_ids: Vec<String>,
    pub event_ids: Vec<String>,
    pub tactics: Vec<String>,
    pub techniques: Vec<String>,
    /// In milliseconds.
    pub timestamp: u64,
}

/// What a step says.
#[verifier::ext_equal]
pub struct StageModel {
    pub stage_name: Seq<char>,
    pub alert_ids: Seq<Seq<char>>,
    pub event_ids: Seq<Seq<char>>,
    pub tactics: Seq<Seq<char>>,
    pub techniques: Seq<Seq<char>>,
    pub timestamp: u64,
}

impl View for AttackChainStage {
    type V = StageModel;

    open spec fn view(&self) -> StageModel {
        StageModel {
            stage_name: self.stage_name@,
            alert_ids: texts(self.alert_ids@),
            event_ids: texts(self.event_ids@),
            tactics: texts(self.tactics@),
            techniques: texts(self.techniques@),
            timestamp: self.timestamp,
        }
    }
}

impl Clone for AttackChainStage {
    fn clone(&self) -> (r: AttackChainStage)
        ensures
            r@ == self@,
    {
        AttackChainStage {
            stage_name: self.stage_name.clone(),
            alert_ids: copies(&self.alert_ids),
            event_ids: copies(&self.event_ids),
            tactics: copies(&self.tactics),
            techniques: copies(&self.techniques),
            timestamp: self.timestamp,
        }
    }
}

/// What some steps say.
pub open spec fn stages_view(stages: Seq<AttackChainStage>) -> Seq<StageModel> {
    stages.map_values(|x: AttackChainStage| x@)
}

/// An attack of several steps.
pub struct AttackChain {
    pub chain_id: String,
    pub stages: Vec<AttackChainStage>,
    pub overall_severity: AlertSeverity,
    /// In millionths.
    pub overall_confidence: u32,
    /// How many milliseconds ago it began.
    pub first_seen: u64,
    /// When it was last seen, in milliseconds.
    pub last_seen: u64,
    pub related_pids: Vec<u32>,
    pub related_ips: Vec<String>,
    pub related_files: Vec<String>,
}

/// What an attack is.
#[verifier::ext_equal]
pub struct ChainModel {
    pub chain_id: Seq<char>,
    pub stages: Seq<StageModel>,
    pub overall_severity: AlertSeverity,
    pub overall_confidence: u32,
    pub first_seen: u64,
    pub last_seen: u64,
    pub related_pids: Seq<u32>,
    pub related_ips: Seq<Seq<char>>,
    pub related_files: Seq<Seq<char>>,
}

impl View for AttackChain {
    type V = ChainModel;

    open spec fn view(&self) -> ChainModel {
        ChainModel {
            chain_id: self.chain_id@,
            stages: stages_view(self.stages@),
            overall_severity: self.overall_severity,
            overall_confidence: self.overall_confidence,
            first_seen: self.first_seen,
            last_seen: self.last_seen,
            related_pids: self.related_pids@,
            related_ips: texts(self.related_ips@),
            related_files: texts(self.related_files@),
        }
    }
}

/// What some attacks are.
pub open spec fn chains_view(chains: Seq<AttackChain>) -> Seq<ChainModel> {
    chains.map_values(|c: AttackChain| c@)
}

/// What an attack is, if there is one.
pub open spec fn chain_view(chain: Option<AttackChain>) -> Option<ChainModel> {
    match chain {
        Some(c) => Some(c@),
        None => None,
    }
}

/// An event of a session.
pub struct CorrelationEvent {
    pub event_id: String,
    /// The event as it is written out, if it can be.
    pub json: Option<JsonValue>,
    /// The alert on it, if there is one.
    pub alert_id: Option<String>,
    /// When it came, in milliseconds.
    pub timestamp: u64,
}

/// What is known of an event.
#[verifier::ext_equal]
pub struct EventModel {
    pub event_id: Seq<char>,
    pub json: Option<JsonModel>,
    pub alert_id: Option<Seq<char>>,
    pub timestamp: u64,
}

/// What an event is, as it is written out, if it can be.
pub open spec fn json_of(json: Option<JsonValue>) -> Option<JsonModel> {
    match json {
        Some(j) => Some(j@),
        None => None,
    }
}

impl View for CorrelationEvent {
    type V = EventModel;

    open spec fn view(&self) -> EventModel {
        EventModel {
            event_id: self.event_id@,
            json: json_of(self.json),
            alert_id: opt_text(self.alert_id),
            timestamp: self.timestamp,
        }
    }
}

impl Clone for CorrelationEvent {
    fn clone(&self) -> (r: CorrelationEvent)
        ensures
            r@ == self@,
    {
        CorrelationEvent {
            event_id: self.event_id.clone(),
            json: match &self.json {
                Some(j) => Some(j.clone()),
                None => None,
            },
            alert_id: opt_copy(&self.alert_id),
            timestamp: self.timestamp,
        }
    }
}

/// What is known of some events.
pub open spec fn events_view(events: Seq<CorrelationEvent>) -> Seq<EventModel> {
    events.map_values(|e: CorrelationEvent| e@)
}

/// Events that have something in common.
pub struct SessionState {
    /// What they have in common.
    pub key: String,
    pub events: Vec<CorrelationEvent>,
    /// The processes that they are about.
    pub pids: Vec<u32>,
    /// The addresses that they are about.
    pub ips: Vec<String>,
    /// The files that they are about.
    pub files: Vec<String>,
    /// In milliseconds.
    pub first_seen: u64,
    /// In milliseconds.
    pub last_seen: u64,
}

/// What a session is.
#[verifier::ext_equal]
pub struct SessionModel {
    pub key: Seq<char>,
    pub events: Seq<EventModel>,
    pub pids: Seq<u32>,
    pub ips: Seq<Seq<char>>,
    pub files: Seq<Seq<char>>,
    pub first_seen: u64,
    pub last_seen: u64,
}

impl View for SessionState {
    type V = SessionModel;

    open spec fn view(&self) -> SessionModel {
        SessionModel {
            key: self.key@,
            events: events_view(self.events@),
            pids: self.pids@,
            ips: texts(self.ips@),
            files: texts(self.files@),
            first_seen: self.first_seen,
            last_seen: self.last_seen,
        }
    }
}

/// What a session is.
pub open spec fn of_session() -> spec_fn(SessionState) -> SessionModel {
    |x: SessionState| x@
}

/// What some sessions are.
pub open spec fn sessions_view(sessions: Seq<SessionState>) -> Seq<SessionModel> {
    sessions.map_values(of_session())
}

/// What an engine knows.
#[verifier::ext_equal]
pub struct CorrelationModel {
    pub rules: Seq<CorrelationRuleModel>,
    pub sessions: Seq<SessionModel>,
    pub buffer: Seq<EventModel>,
}

/// Whether a session is of a key.
pub open spec fn of_key(key: Seq<char>) -> spec_fn(SessionModel) -> bool {
    |x: SessionModel| x.key == key
}

/// Where the session of a key stands.
pub open spec fn position(sessions: Seq<SessionModel>, key: Seq<char>) -> Option<int> {
    first_index(sessions, of_key(key))
}

/// How much time passed from one moment to another, if any did.
pub open spec fn elapsed(from: u64, to: u64) -> u64 {
    if to >= from {
        (to - from) as u64
    } else {
        0
    }
}

/// How much time passed from one moment to another, if any did.
pub fn time_between(from: u64, to: u64) -> (r: u64)
    ensures
        r == elapsed(from, to),
{
    if to >= from {
        to - from
    } else {
        0
    }
}

/// Whether a session still lives.
pub open spec fn alive(now: u64) -> spec_fn(SessionModel) -> bool {
    |x: SessionModel| elapsed(x.last_seen, now) < SESSION_LIFETIME_MS
}

/// Some events without those in front that are too old.
pub open spec fn trimmed(events: Seq<EventModel>, now: u64) -> Seq<EventModel>
    decreases events.len(),
{
    if events.len() > 0 && elapsed(events[0].timestamp, now) > BUFFER_LIFETIME_MS {
        trimmed(events.drop_first(), now)
    } else {
        events
    }
}

/// Whether a key is of one of some fields. Where none is named, all are meant but the
/// name of the process, which many processes share.
pub open spec fn correlates_on(fields: Seq<Seq<char>>, key: Seq<char>) -> bool {
    if fields.len() == 0 {
        !begins(key, "process_name:"@)
    } else {
        exists|i: int| 0 <= i < fields.len() && begins(key, #[trigger] fields[i] + ":"@)
    }
}

fn is_correlated_on(fields: &Vec<String>, key: &str) -> (r: bool)
    ensures
        r == correlates_on(texts(fields@), key@),
{
    let ghost names = texts(fields@);
    if fields.len() == 0 {
        return !starts_with(key, "process_name:");
    }
    let mut i: usize = 0;
    while i < fields.len()
        invariant
            i <= fields@.len(),
            names == texts(fields@),
            forall|j: int| 0 <= j < i ==> !begins(key@, #[trigger] names[j] + ":"@),
        decreases fields@.len() - i,
    {
        assert(names[i as int] == fields@[i as int]@);
        if starts_with(key, fields[i].clone().concat(":").as_str()) {
            assert(begins(key@, names[i as int] + ":"@));
            return true;
        }
        i += 1;
    }
    false
}

/// What an event may have in common with others.
pub open spec fn keys(payload: EventPayload) -> Seq<Seq<char>> {
    match payload {
        EventPayload::Process(p) => seq![
            "pid:"@ + decimal(p.pid as nat),
            "ppid:"@ + decimal(p.ppid as nat),
            "user:"@ + p.user@,
        ] + one_if(p.sha256@.len() > 0, "sha256:"@ + hex_digits(p.sha256@)) + seq![
            "process_name:"@ + p.name@,
        ],
        EventPayload::Network(n) => seq![
            "pid:"@ + decimal(n.pid as nat),
            "remote_ip:"@ + n.remote_ip@,
            "process_name:"@ + n.process_name@,
        ],
        EventPayload::File(f) => seq![
            "pid:"@ + decimal(f.pid as nat),
            "file_sha256:"@ + hex_digits(f.sha256@),
            "process_name:"@ + f.process_name@,
        ],
        EventPayload::Registry(r) => seq![
            "pid:"@ + decimal(r.pid as nat),
            "process_name:"@ + r.process_name@,
        ],
        _ => Seq::empty(),
    }
}

/// Some processes and one more, where it is not among them yet.
pub open spec fn with_pid(pids: Seq<u32>, pid: u32) -> Seq<u32> {
    if pids.contains(pid) {
        pids
    } else {
        pids.push(pid)
    }
}

/// The last events, as many as a session keeps.
pub open spec fn latest(events: Seq<EventModel>) -> Seq<EventModel> {
    if events.len() > MAX_SESSION_EVENTS {
        events.skip(events.len() - MAX_SESSION_EVENTS)
    } else {
        events
    }
}

/// A session with one more event.
pub open spec fn with_event(x: SessionModel, payload: EventPayload, e: EventModel) -> SessionModel {
    let seen = SessionModel { last_seen: e.timestamp, events: latest(x.events.push(e)), ..x };
    match payload {
        EventPayload::Process(p) => SessionModel { pids: with_pid(x.pids, p.pid), ..seen },
        EventPayload::Network(n) => SessionModel {
            pids: with_pid(x.pids, n.pid),
            ips: with_member(x.ips, n.remote_ip@),
            ..seen
        },
        EventPayload::File(f) => SessionModel {
            pids: with_pid(x.pids, f.pid),
            files: with_member(x.files, f.path@),
            ..seen
        },
        EventPayload::Registry(r) => SessionModel { pids: with_pid(x.pids, r.pid), ..seen },
        _ => seen,
    }
}

/// A session that begins.
pub open spec fn new_session(key: Seq<char>, now: u64) -> SessionModel {
    SessionModel {
        key,
        events: Seq::empty(),
        pids: Seq::empty(),
        ips: Seq::empty(),
        files: Seq::empty(),
        first_seen: now,
        last_seen: now,
    }
}

/// Some sessions once an event was filed under a key.
pub open spec fn filed(
    sessions: Seq<SessionModel>,
    key: Seq<char>,
    payload: EventPayload,
    e: EventModel,
) -> Seq<SessionModel> {
    match position(sessions, key) {
        Some(i) => sessions.update(i, with_event(sessions[i], payload, e)),
        None => sessions.push(with_event(new_session(key, e.timestamp), payload, e)),
    }
}

/// Some sessions once an event was filed under the first `n` keys.
pub open spec fn filed_all(
    sessions: Seq<SessionModel>,
    all: Seq<Seq<char>>,
    n: nat,
    payload: EventPayload,
    e: EventModel,
) -> Seq<SessionModel>
    decreases n,
{
    if n == 0 {
        sessions
    } else {
        filed(filed_all(sessions, all, (n - 1) as nat, payload, e), all[n - 1], payload, e)
    }
}

/// How far a sequence of steps was followed.
#[verifier::ext_equal]
pub struct Progress {
    /// How many steps were found.
    pub found: nat,
    /// The steps.
    pub stages: Seq<StageModel>,
    /// When the last one was found.
    pub last: Option<u64>,
}

/// A step that an event makes.
pub open spec fn stage(number: nat, e: EventModel, now: u64) -> StageModel {
    StageModel {
        stage_name: "Stage "@ + decimal(number),
        alert_ids: match e.alert_id {
            Some(id) => seq![id],
            None => Seq::empty(),
        },
        event_ids: seq![e.event_id],
        tactics: Seq::empty(),
        techniques: Seq::empty(),
        timestamp: now,
    }
}

/// Whether too much time lies between the last step and an event.
pub open spec fn too_late(rule: CorrelationRuleModel, last: Option<u64>, at: u64) -> bool {
    match last {
        Some(t) => elapsed(t, at) / 1000 > rule.max_gap_seconds,
        None => false,
    }
}

/// How far the sequence is followed once an event was looked at. After too long a
/// pause it starts over.
pub open spec fn followed(rule: CorrelationRuleModel, p: Progress, e: EventModel, now: u64) -> Progress {
    if p.found >= rule.sequence.len() {
        p
    } else {
        let over = too_late(rule, p.last, e.timestamp);
        let found = if over {
            0
        } else {
            p.found
        };
        let stages = if over {
            Seq::empty()
        } else {
            p.stages
        };
        if group_holds(rule.sequence[found as int], e.json) {
            Progress {
                found: found + 1,
                stages: stages.push(stage(found + 1, e, now)),
                last: Some(e.timestamp),
            }
        } else {
            Progress { found, stages, last: p.last }
        }
    }
}

/// How far the sequence is followed after the first `n` events.
pub open spec fn progress(
    rule: CorrelationRuleModel,
    events: Seq<EventModel>,
    n: nat,
    now: u64,
) -> Progress
    decreases n,
{
    if n == 0 {
        Progress { found: 0, stages: Seq::empty(), last: None }
    } else {
        followed(rule, progress(rule, events, (n - 1) as nat, now), events[n - 1], now)
    }
}

/// The attack that a session shows by a rule, without an identifier yet.
pub open spec fn chain_of(rule: CorrelationRuleModel, x: SessionModel, now: u64) -> Option<
    ChainModel,
> {
    let p = progress(rule, x.events, x.events.len(), now);
    if x.events.len() >= rule.sequence.len() && p.found == rule.sequence.len() {
        Some(
            ChainModel {
                chain_id: Seq::empty(),
                stages: p.stages,
                overall_severity: rule.severity,
                overall_confidence: 800_000,
                first_seen: elapsed(x.first_seen, now),
                last_seen: now,
                related_pids: x.pids,
                related_ips: x.ips,
                related_files: x.files,
            },
        )
    } else {
        None
    }
}

/// The attack that the session of a key shows by a rule.
pub open spec fn chain_at(
    rule: CorrelationRuleModel,
    sessions: Seq<SessionModel>,
    key: Seq<char>,
    now: u64,
) -> Option<ChainModel> {
    match position(sessions, key) {
        Some(i) => chain_of(rule, sessions[i], now),
        None => None,
    }
}

/// The attacks that the sessions of the first `n` keys show by a rule.
pub open spec fn rule_chains(
    rule: CorrelationRuleModel,
    sessions: Seq<SessionModel>,
    all: Seq<Seq<char>>,
    n: nat,
    now: u64,
) -> Seq<ChainModel>
    decreases n,
{
    if n == 0 {
        Seq::empty()
    } else {
        let before = rule_chains(rule, sessions, all, (n - 1) as nat, now);
        if correlates_on(rule.correlation_fields, all[n - 1]) {
            match chain_at(rule, sessions, all[n - 1], now) {
                Some(chain) => before.push(chain),
                None => before,
            }
        } else {
            before
        }
    }
}

/// The attacks that the sessions of some keys show by the first `n` rules.
pub open spec fn all_chains(
    rules: Seq<CorrelationRuleModel>,
    sessions: Seq<SessionModel>,
    all: Seq<Seq<char>>,
    n: nat,
    now: u64,
) -> Seq<ChainModel>
    decreases n,
{
    if n == 0 {
        Seq::empty()
    } else {
        let before = all_chains(rules, sessions, all, (n - 1) as nat, now);
        if rules[n - 1].enabled {
            before + rule_chains(rules[n - 1], sessions, all, all.len(), now)
        } else {
            before
        }
    }
}

/// What is kept of an event.
pub open spec fn kept_event(
    event: TelemetryEvent,
    json: Option<JsonModel>,
    alert_id: Option<Seq<char>>,
    now: u64,
) -> EventModel {
    EventModel { event_id: event.event_id@, json, alert_id, timestamp: now }
}

/// What an engine knows after an event.
pub open spec fn after_event(
    m: CorrelationModel,
    event: TelemetryEvent,
    json: Option<JsonModel>,
    alert_id: Option<Seq<char>>,
    now: u64,
) -> CorrelationModel {
    let e = kept_event(event, json, alert_id, now);
    let all = keys(event.payload);
    CorrelationModel {
        rules: m.rules,
        sessions: filed_all(m.sessions.filter(alive(now)), all, all.len(), event.payload, e),
        buffer: trimmed(m.buffer, now).push(e),
    }
}

/// The attacks that come out with an event, without identifiers yet.
pub open spec fn found_chains(
    m: CorrelationModel,
    event: TelemetryEvent,
    json: Option<JsonModel>,
    alert_id: Option<Seq<char>>,
    now: u64,
) -> Seq<ChainModel> {
    let after = after_event(m, event, json, alert_id, now);
    all_chains(m.rules, after.sessions, keys(event.payload), m.rules.len(), now)
}

/// An attack under an identifier.
pub open spec fn named_chain(chain: ChainModel, id: Seq<char>) -> ChainModel {
    ChainModel { chain_id: id, ..chain }
}

/// Some attacks under identifiers of their own.
pub open spec fn named_chains(chains: Seq<ChainModel>, ids: Seq<Seq<char>>) -> Seq<ChainModel> {
    Seq::new(chains.len(), |i: int| named_chain(chains[i], ids[i]))
}

/// The identifier of an alert, if there is one.
pub open spec fn id_of(alert: Option<&Alert>) -> Option<Seq<char>> {
    match alert {
        Some(a) => Some(a.alert_id@),
        None => None,
    }
}

fn find_keys(payload: &EventPayload) -> (r: Vec<String>)
    ensures
        texts(r@) == keys(*payload),
{
    let mut r: Vec<String> = Vec::new();
    assert(texts(r@) =~= Seq::empty());
    match payload {
        EventPayload::Process(p) => {
            push_text(&mut r, "pid:".to_string().concat(decimal_text(p.pid as u64).as_str()));
            push_text(&mut r, "ppid:".to_string().concat(decimal_text(p.ppid as u64).as_str()));
            push_text(&mut r, "user:".to_string().concat(p.user.as_str()));
            if p.sha256.len() > 0 {
                push_text(
                    &mut r,
                    "sha256:".to_string().concat(hex_encode(p.sha256.as_slice()).as_str()),
                );
            }
            push_text(&mut r, "process_name:".to_string().concat(p.name.as_str()));
        },
        EventPayload::Network(n) => {
            push_text(&mut r, "pid:".to_string().concat(decimal_text(n.pid as u64).as_str()));
            push_text(&mut r, "remote_ip:".to_string().concat(n.remote_ip.as_str()));
            push_text(&mut r, "process_name:".to_string().concat(n.process_name.as_str()));
        },
        EventPayload::File(f) => {
            push_text(&mut r, "pid:".to_string().concat(decimal_text(f.pid as u64).as_str()));
            push_text(
                &mut r,
                "file_sha256:".to_string().concat(hex_encode(f.sha256.as_slice()).as_str()),
            );
            push_text(&mut r, "process_name:".to_string().concat(f.process_name.as_str()));
        },
        EventPayload::Registry(g) => {
            push_text(&mut r, "pid:".to_string().concat(decimal_text(g.pid as u64).as_str()));
            push_text(&mut r, "process_name:".to_string().concat(g.process_name.as_str()));
        },
        _ => {},
    }
    assert(texts(r@) =~= keys(*payload));
    r
}

fn add_pid(pids: &mut Vec<u32>, pid: u32)
    ensures
        final(pids)@ == with_pid(old(pids)@, pid),
{
    let mut i: usize = 0;
    while i < pids.len()
        invariant
            i <= pids@.len(),
            pids@ == old(pids)@,
            forall|k: int| 0 <= k < i ==> #[trigger] pids@[k] != pid,
        decreases pids@.len() - i,
    {
        if pids[i] == pid {
            assert(pids@.contains(pid));
            return;
        }
        i += 1;
    }
    pids.push(pid);
}

fn add_text(list: &mut Vec<String>, text: String)
    ensures
        texts(final(list)@) == with_member(texts(old(list)@), text@),
{
    if !holds(list, text.as_str()) {
        push_text(list, text);
    }
}

fn copy_pids(pids: &Vec<u32>) -> (r: Vec<u32>)
    ensures
        r@ == pids@,
{
    let mut r: Vec<u32> = Vec::new();
    let mut i: usize = 0;
    while i < pids.len()
        invariant
            i <= pids@.len(),
            r@ == pids@.take(i as int),
        decreases pids@.len() - i,
    {
        r.push(pids[i]);
        assert(r@ =~= pids@.take(i + 1));
        i += 1;
    }
    assert(r@ =~= pids@);
    r
}

impl SessionState {
    fn start(key: String, now: u64) -> (r: SessionState)
        ensures
            r@ == new_session(key@, now),
    {
        let r = SessionState {
            key,
            events: Vec::new(),
            pids: Vec::new(),
            ips: Vec::new(),
            files: Vec::new(),
            first_seen: now,
            last_seen: now,
        };
        assert(events_view(r.events@) =~= Seq::empty());
        assert(texts(r.ips@) =~= Seq::empty());
        assert(texts(r.files@) =~= Seq::empty());
        r
    }

    fn take_event(&mut self, payload: &EventPayload, event: CorrelationEvent)
        ensures
            final(self)@ == with_event(old(self)@, *payload, event@),
    {
        let ghost goal = with_event(self@, *payload, event@);
        self.last_seen = event.timestamp;
        let ghost before = events_view(self.events@);
        let ghost model = event@;
        self.events.push(event);
        let ghost all = before.push(model);
        assert(events_view(self.events@) =~= all);
        match payload {
            EventPayload::Process(p) => {
                add_pid(&mut self.pids, p.pid);
            },
            EventPayload::Network(n) => {
                add_pid(&mut self.pids, n.pid);
                add_text(&mut self.ips, n.remote_ip.clone());
            },
            EventPayload::File(f) => {
                add_pid(&mut self.pids, f.pid);
                add_text(&mut self.files, f.path.clone());
            },
            EventPayload::Registry(r) => {
                add_pid(&mut self.pids, r.pid);
            },
            _ => {},
        }
        assert(all.skip(0) =~= all);
        let ghost mut dropped: int = 0;
        while self.events.len() > MAX_SESSION_EVENTS
            invariant
                0 <= dropped <= all.len(),
                events_view(self.events@) == all.skip(dropped),
                dropped > 0 ==> all.len() - dropped >= MAX_SESSION_EVENTS,
                self@ == (SessionModel { events: all.skip(dropped), ..goal }),
            decreases self.events@.len(),
        {
            let ghost left = self.events@;
            assert(events_view(left).len() == left.len());
            self.events.remove(0);
            proof {
                assert(events_view(self.events@) =~= events_view(left).skip(1));
                assert(all.skip(dropped).skip(1) =~= all.skip(dropped + 1));
                dropped = dropped + 1;
            }
        }
        assert(events_view(self.events@).len() == self.events@.len());
        assert(self@ =~= goal);
    }
}

fn make_stage(number: usize, event: &CorrelationEvent, now: u64) -> (r: AttackChainStage)
    ensures
        r@ == stage(number as nat, event@, now),
{
    let mut alert_ids: Vec<String> = Vec::new();
    match &event.alert_id {
        Some(id) => {
            alert_ids.push(id.clone());
            assert(texts(alert_ids@) =~= seq![id@]);
        },
        None => {
            assert(texts(alert_ids@) =~= Seq::empty());
        },
    }
    let mut event_ids: Vec<String> = Vec::new();
    event_ids.push(event.event_id.clone());
    assert(texts(event_ids@) =~= seq![event.event_id@]);
    let tactics: Vec<String> = Vec::new();
    let techniques: Vec<String> = Vec::new();
    assert(texts(tactics@) =~= Seq::empty());
    assert(texts(techniques@) =~= Seq::empty());
    AttackChainStage {
        stage_name: "Stage ".to_string().concat(decimal_text(number as u64).as_str()),
        alert_ids,
        event_ids,
        tactics,
        techniques,
        timestamp: now,
    }
}

fn check_session(rule: &CorrelationRule, session: &SessionState, now: u64) -> (r: Option<
    AttackChain,
>)
    ensures
        chain_view(r) == chain_of(rule@, session@, now),
{
    let ghost model = rule@;
    let ghost events = events_view(session.events@);
    proof {
        lemma_groups(rule.sequence@);
    }
    if session.events.len() < rule.sequence.len() {
        return None;
    }
    let mut stages: Vec<AttackChainStage> = Vec::new();
    let mut found: usize = 0;
    let mut last: Option<u64> = None;
    let mut i: usize = 0;
    assert(stages_view(stages@) =~= Seq::empty());
    while i < session.events.len()
        invariant
            i <= session.events@.len(),
            model == rule@,
            model.sequence.len() == rule.sequence@.len(),
            forall|k: int|
                0 <= k < rule.sequence@.len() ==> #[trigger] model.sequence[k]
                    == rule.sequence@[k]@,
            events == events_view(session.events@),
            progress(model, events, i as nat, now) == (Progress {
                found: found as nat,
                stages: stages_view(stages@),
                last,
            }),
        decreases session.events@.len() - i,
    {
        let event = &session.events[i];
        assert(events[i as int] == event@);
        if found < rule.sequence.len() {
            let over = match last {
                Some(t) => time_between(t, event.timestamp) / 1000 > rule.max_gap_seconds,
                None => false,
            };
            if over {
                found = 0;
                stages = Vec::new();
                assert(stages_view(stages@) =~= Seq::empty());
            }
            assert(model.sequence[found as int] == rule.sequence@[found as int]@);
            let json = match &event.json {
                Some(j) => Some(j),
                None => None,
            };
            assert(opt_json(json) == event@.json);
            if rule.sequence[found].evaluate(json) {
                let ghost before = stages_view(stages@);
                let next = make_stage(found + 1, event, now);
                let ghost step = next@;
                stages.push(next);
                assert(stages_view(stages@) =~= before.push(step));
                last = Some(event.timestamp);
                found += 1;
            }
        }
        i += 1;
    }
    if found == rule.sequence.len() {
        Some(
            AttackChain {
                chain_id: String::new(),
                stages,
                overall_severity: rule.severity,
                overall_confidence: 800_000,
                first_seen: time_between(session.first_seen, now),
                last_seen: now,
                related_pids: copy_pids(&session.pids),
                related_ips: copies(&session.ips),
                related_files: copies(&session.files),
            },
        )
    } else {
        None
    }
}

/// Files events under what they have in common, and finds attacks among them.
pub struct CorrelationEngine {
    pub rules: Vec<CorrelationRule>,
    pub sessions: Vec<SessionState>,
    pub event_buffer: Vec<CorrelationEvent>,
}

impl View for CorrelationEngine {
    type V = CorrelationModel;

    open spec fn view(&self) -> CorrelationModel {
        CorrelationModel {
            rules: correlation_rules_view(self.rules@),
            sessions: sessions_view(self.sessions@),
            buffer: events_view(self.event_buffer@),
        }
    }
}

/// What an engine knows that saw nothing.
pub open spec fn empty_engine() -> CorrelationModel {
    CorrelationModel { rules: Seq::empty(), sessions: Seq::empty(), buffer: Seq::empty() }
}

impl Default for CorrelationEngine {
    fn default() -> (r: CorrelationEngine)
        ensures
            r@ == empty_engine(),
    {
        CorrelationEngine::new()
    }
}

impl CorrelationEngine {
    /// An engine without rules.
    pub fn new() -> (r: CorrelationEngine)
        ensures
            r@ == empty_engine(),
    {
        let r = CorrelationEngine {
            rules: Vec::new(),
            sessions: Vec::new(),
            event_buffer: Vec::new(),
        };
        assert(correlation_rules_view(r.rules@) =~= Seq::empty());
        assert(sessions_view(r.sessions@) =~= Seq::empty());
        assert(events_view(r.event_buffer@) =~= Seq::empty());
        r
    }

    /// Adds a rule.
    pub fn add_rule(&mut self, rule: CorrelationRule)
        ensures
            final(self)@ == (CorrelationModel {
                rules: old(self)@.rules.push(rule@),
                ..old(self)@
            }),
    {
        let ghost before = self@.rules;
        let ghost model = rule@;
        self.rules.push(rule);
        assert(correlation_rules_view(self.rules@) =~= before.push(model));
    }

    fn index_of(&self, key: &str) -> (r: Option<usize>)
        ensures
            match r {
                Some(i) => position(self@.sessions, key@) == Some(i as int) && i
                    < self.sessions@.len(),
                None => position(self@.sessions, key@) is None,
            },
    {
        let ghost q = of_key(key@);
        let ghost p = |x: SessionState| q(x@);
        let meets = |x: &SessionState| -> (b: bool)
            ensures
                b == q(x@),
            { same(x.key.as_str(), key) };
        let r = position_where(&self.sessions, meets, Ghost(p));
        proof {
            lemma_first_index_map(self.sessions@, of_session(), p, q);
        }
        r
    }

    fn cleanup_old_sessions(&mut self, now: u64)
        ensures
            final(self)@ == (CorrelationModel {
                sessions: old(self)@.sessions.filter(alive(now)),
                ..old(self)@
            }),
    {
        let ghost before = self.sessions@;
        let ghost q = alive(now);
        let ghost p = |x: SessionState| q(x@);
        let keep = |x: &SessionState| -> (b: bool)
            ensures
                b == q(x@),
            { time_between(x.last_seen, now) < SESSION_LIFETIME_MS };
        retain(&mut self.sessions, keep, Ghost(p));
        proof {
            lemma_filter_map(before, of_session(), p, q);
        }
    }

    fn cleanup_old_buffer(&mut self, now: u64)
        ensures
            final(self)@ == (CorrelationModel {
                buffer: trimmed(old(self)@.buffer, now),
                ..old(self)@
            }),
    {
        let ghost goal = trimmed(self@.buffer, now);
        let mut more = true;
        while more
            invariant
                self.rules == old(self).rules,
                self.sessions == old(self).sessions,
                trimmed(events_view(self.event_buffer@), now) == goal,
                !more ==> events_view(self.event_buffer@) == goal,
            decreases self.event_buffer@.len(), (if more { 1int } else { 0 }),
        {
            let ghost all = events_view(self.event_buffer@);
            assert(all.len() == self.event_buffer@.len());
            if self.event_buffer.len() > 0 && time_between(
                self.event_buffer[0].timestamp,
                now,
            ) > BUFFER_LIFETIME_MS {
                self.event_buffer.remove(0);
                assert(events_view(self.event_buffer@) =~= all.drop_first());
            } else {
                more = false;
            }
        }
    }

    fn update_session(&mut self, key: &str, payload: &EventPayload, event: CorrelationEvent)
        ensures
            final(self)@ == (CorrelationModel {
                sessions: filed(old(self)@.sessions, key@, *payload, event@),
                ..old(self)@
            }),
    {
        let ghost before = self@.sessions;
        match self.index_of(key) {
            Some(i) => {
                let mut session = self.sessions.remove(i);
                assert(session@ == before[i as int]);
                session.take_event(payload, event);
                let ghost model = session@;
                self.sessions.insert(i, session);
                assert(sessions_view(self.sessions@) =~= before.update(i as int, model));
            },
            None => {
                let mut session = SessionState::start(key.to_string(), event.timestamp);
                session.take_event(payload, event);
                let ghost model = session@;
                self.sessions.push(session);
                assert(sessions_view(self.sessions@) =~= before.push(model));
            },
        }
    }

    fn check_correlation_rule(&self, rule: &CorrelationRule, key: &str, now: u64) -> (r: Option<
        AttackChain,
    >)
        ensures
            chain_view(r) == chain_at(rule@, self@.sessions, key@, now),
    {
        match self.index_of(key) {
            Some(i) => {
                assert(self@.sessions[i as int] == self.sessions@[i as int]@);
                check_session(rule, &self.sessions[i], now)
            },
            None => None,
        }
    }

    fn check_rule(&self, rule: &CorrelationRule, all: &Vec<String>, now: u64) -> (r: Vec<
        AttackChain,
    >)
        ensures
            chains_view(r@) == rule_chains(
                rule@,
                self@.sessions,
                texts(all@),
                all@.len(),
                now,
            ),
    {
        let ghost names = texts(all@);
        let mut r: Vec<AttackChain> = Vec::new();
        let mut i: usize = 0;
        assert(chains_view(r@) =~= Seq::empty());
        while i < all.len()
            invariant
                i <= all@.len(),
                names == texts(all@),
                chains_view(r@) == rule_chains(rule@, self@.sessions, names, i as nat, now),
            decreases all@.len() - i,
        {
            assert(names[i as int] == all@[i as int]@);
            let ghost before = chains_view(r@);
            if !is_correlated_on(&rule.correlation_fields, all[i].as_str()) {
                i += 1;
                continue;
            }
            match self.check_correlation_rule(rule, all[i].as_str(), now) {
                Some(chain) => {
                    let ghost model = chain@;
                    r.push(chain);
                    assert(chains_view(r@) =~= before.push(model));
                },
                None => {},
            }
            i += 1;
        }
        r
    }

    /// Takes an event, with how it is written out, if it can be, and the identifier
    /// of the alert on it, if there is one. Gives the attacks that come out,
    /// without identifiers yet.
    pub fn correlate(
        &mut self,
        event: &TelemetryEvent,
        json: Option<&JsonValue>,
        alert_id: Option<&str>,
        now: u64,
    ) -> (r: Vec<AttackChain>)
        ensures
            final(self)@ == after_event(
                old(self)@,
                *event,
                opt_json(json),
                id_view(alert_id),
                now,
            ),
            chains_view(r@) == found_chains(
                old(self)@,
                *event,
                opt_json(json),
                id_view(alert_id),
                now,
            ),
    {
        let ghost start = self@;
        let ghost e = kept_event(*event, opt_json(json), id_view(alert_id), now);
        self.cleanup_old_sessions(now);
        self.cleanup_old_buffer(now);
        let kept = CorrelationEvent {
            event_id: event.event_id.clone(),
            json: match json {
                Some(j) => Some(j.clone()),
                None => None,
            },
            alert_id: match alert_id {
                Some(id) => Some(id.to_string()),
                None => None,
            },
            timestamp: now,
        };
        assert(kept@ == e);
        let ghost buffered = self@.buffer;
        self.event_buffer.push(kept.clone());
        assert(events_view(self.event_buffer@) =~= buffered.push(e));
        let all = find_keys(&event.payload);
        let ghost names = texts(all@);
        let ghost sessions = self@.sessions;
        let ghost buffer = self@.buffer;
        let mut i: usize = 0;
        while i < all.len()
            invariant
                i <= all@.len(),
                names == texts(all@),
                kept@ == e,
                self@ == (CorrelationModel {
                    rules: start.rules,
                    sessions: filed_all(sessions, names, i as nat, event.payload, e),
                    buffer,
                }),
            decreases all@.len() - i,
        {
            assert(names[i as int] == all@[i as int]@);
            self.update_session(all[i].as_str(), &event.payload, kept.clone());
            i += 1;
        }
        let ghost filed_sessions = self@.sessions;
        let mut r: Vec<AttackChain> = Vec::new();
        let mut k: usize = 0;
        assert(chains_view(r@) =~= Seq::empty());
        while k < self.rules.len()
            invariant
                k <= self.rules@.len(),
                names == texts(all@),
                self@.rules == start.rules,
                self@.sessions == filed_sessions,
                chains_view(r@) == all_chains(
                    start.rules,
                    filed_sessions,
                    names,
                    k as nat,
                    now,
                ),
            decreases self.rules@.len() - k,
        {
            assert(start.rules[k as int] == self.rules@[k as int]@);
            if self.rules[k].enabled {
                let ghost before = chains_view(r@);
                let mut more = self.check_rule(&self.rules[k], &all, now);
                let ghost found = chains_view(more@);
                r.append(&mut more);
                assert(chains_view(r@) =~= before + found);
            }
            k += 1;
        }
        r
    }

    /// Takes an event, with how it is written out, if it can be, and the alert on
    /// it, if there is one. Gives the attacks that come out.
    pub fn process_event(
        &mut self,
        event: &TelemetryEvent,
        json: Option<&JsonValue>,
        alert: Option<&Alert>,
        ids: &mut IdSource,
        now: u64,
    ) -> (r: Vec<AttackChain>)
        ensures
            final(self)@ == after_event(old(self)@, *event, opt_json(json), id_of(alert), now),
            drawn(*old(ids), *final(ids)),
            used(*old(ids), *final(ids)).len() == r@.len(),
            chains_view(r@) == named_chains(
                found_chains(old(self)@, *event, opt_json(json), id_of(alert), now),
                used(*old(ids), *final(ids)),
            ),
    {
        let alert_id = match alert {
            Some(a) => Some(a.alert_id.as_str()),
            None => None,
        };
        assert(id_view(alert_id) == id_of(alert));
        let chains = self.correlate(event, json, alert_id, now);
        name_chains(chains, ids)
    }
}

/// What an identifier is, if there is one.
pub open spec fn id_view(id: Option<&str>) -> Option<Seq<char>> {
    match id {
        Some(x) => Some(x@),
        None => None,
    }
}

fn name_chains(chains: Vec<AttackChain>, ids: &mut IdSource) -> (r: Vec<AttackChain>)
    ensures
        drawn(*old(ids), *final(ids)),
        used(*old(ids), *final(ids)).len() == chains@.len(),
        r@.len() == chains@.len(),
        chains_view(r@) == named_chains(chains_view(chains@), used(*old(ids), *final(ids))),
{
    let ghost all = chains_view(chains@);
    let ghost before = *ids;
    let mut rest = chains;
    let mut r: Vec<AttackChain> = Vec::new();
    let n: usize = rest.len();
    let mut i: usize = 0;
    proof {
        lemma_nothing_drawn(before);
        assert(all.skip(0) =~= all);
        assert(chains_view(r@) =~= named_chains(all.take(0), used(before, *ids)));
    }
    while i < n
        invariant
            i <= n,
            n == all.len(),
            chains_view(rest@) == all.skip(i as int),
            drawn(before, *ids),
            used(before, *ids).len() == i,
            r@.len() == i,
            chains_view(r@) == named_chains(all.take(i as int), used(before, *ids)),
        decreases n - i,
    {
        let ghost middle = *ids;
        let ghost seen = chains_view(r@);
        let ghost left = rest@;
        assert(chains_view(left).len() == left.len());
        assert(chains_view(left)[0] == all[i as int]);
        let mut chain = rest.remove(0);
        proof {
            assert(chain@ == all[i as int]);
            assert forall|k: int| 0 <= k < rest@.len() implies chains_view(rest@)[k] == all.skip(
                i + 1,
            )[k] by {
                assert(rest@[k] == left[k + 1]);
                assert(chains_view(left)[k + 1] == all.skip(i as int)[k + 1]);
            }
            assert(chains_view(rest@) =~= all.skip(i + 1));
        }
        let id = ids.draw();
        chain.chain_id = id;
        proof {
            lemma_drawn_twice(before, middle, *ids);
            let now = used(before, *ids);
            assert(now == used(before, middle).push(id@));
            assert(chain@ == named_chain(all[i as int], now[i as int]));
        }
        r.push(chain);
        proof {
            let now = used(before, *ids);
            assert(chains_view(r@) =~= seen.push(chain@));
            assert(chains_view(r@) =~= named_chains(all.take(i + 1), now));
        }
        i += 1;
    }
    assert(all.take(n as int) =~= all);
    r
}

proof fn lemma_progress(rule: CorrelationRuleModel, events: Seq<EventModel>, n: nat, now: u64)
    ensures
        progress(rule, events, n, now).found == progress(rule, events, n, now).stages.len(),
        progress(rule, events, n, now).found <= rule.sequence.len(),
    decreases n,
{
    if n > 0 {
        lemma_progress(rule, events, (n - 1) as nat, now);
    }
}

/// An attack has all the steps of its rule, and no others.
pub proof fn law_attack_has_all_steps(rule: CorrelationRuleModel, x: SessionModel, now: u64)
    ensures
        chain_of(rule, x, now) matches Some(chain) ==> chain.stages.len() == rule.sequence.len(),
{
    lemma_progress(rule, x.events, x.events.len(), now);
}

/// A session with fewer events than a rule has steps shows no attack by it.
pub proof fn law_short_session_shows_nothing(rule: CorrelationRuleModel, x: SessionModel, now: u64)
    requires
        x.events.len() < rule.sequence.len(),
    ensures
        chain_of(rule, x, now) is None,
{
}

/// Events that meet the steps of a rule one after the other, none too long after
/// the one before, are an attack.
pub proof fn law_matching_events_are_an_attack(rule: CorrelationRuleModel, x: SessionModel, now: u64)
    requires
        x.events.len() == rule.sequence.len(),
        forall|i: int|
            0 <= i < x.events.len() ==> group_holds(
                rule.sequence[i],
                (#[trigger] x.events[i]).json,
            ),
        forall|i: int, j: int|
            0 <= i < x.events.len() && j == i - 1 && 0 <= j ==> !too_late(
                rule,
                Some((#[trigger] x.events[j]).timestamp),
                (#[trigger] x.events[i]).timestamp,
            ),
    ensures
        chain_of(rule, x, now) is Some,
{
    lemma_steps_found(rule, x, x.events.len(), now);
}

proof fn lemma_steps_found(rule: CorrelationRuleModel, x: SessionModel, n: nat, now: u64)
    requires
        n <= x.events.len(),
        x.events.len() == rule.sequence.len(),
        forall|i: int|
            0 <= i < x.events.len() ==> group_holds(
                rule.sequence[i],
                (#[trigger] x.events[i]).json,
            ),
        forall|i: int, j: int|
            0 <= i < x.events.len() && j == i - 1 && 0 <= j ==> !too_late(
                rule,
                Some((#[trigger] x.events[j]).timestamp),
                (#[trigger] x.events[i]).timestamp,
            ),
    ensures
        progress(rule, x.events, n, now).found == n,
        progress(rule, x.events, n, now).last == if n == 0 {
            None
        } else {
            Some(x.events[n - 1].timestamp)
        },
    decreases n,
{
    if n > 0 {
        lemma_steps_found(rule, x, (n - 1) as nat, now);
        let e = x.events[n - 1];
        assert(group_holds(rule.sequence[n - 1], e.json));
        if n > 1 {
            let before = x.events[n - 2];
            assert(!too_late(rule, Some(before.timestamp), e.timestamp));
        }
    }
}

/// A session keeps no more events than it may.
pub proof fn law_session_is_bounded(x: SessionModel, payload: EventPayload, e: EventModel)
    ensures
        with_event(x, payload, e).events.len() <= MAX_SESSION_EVENTS,
        with_event(x, payload, e).events.last() == e,
{
}

/// Rules that are off find nothing.
pub proof fn law_rules_that_are_off_find_nothing(
    m: CorrelationModel,
    event: TelemetryEvent,
    json: Option<JsonModel>,
    alert_id: Option<Seq<char>>,
    now: u64,
)
    requires
        forall|i: int| 0 <= i < m.rules.len() ==> !(#[trigger] m.rules[i]).enabled,
    ensures
        found_chains(m, event, json, alert_id, now).len() == 0,
{
    let after = after_event(m, event, json, alert_id, now);
    lemma_off(m.rules, after.sessions, keys(event.payload), m.rules.len(), now);
}

proof fn lemma_off(
    rules: Seq<CorrelationRuleModel>,
    sessions: Seq<SessionModel>,
    all: Seq<Seq<char>>,
    n: nat,
    now: u64,
)
    requires
        n <= rules.len(),
        forall|i: int| 0 <= i < rules.len() ==> !(#[trigger] rules[i]).enabled,
    ensures
        all_chains(rules, sessions, all, n, now).len() == 0,
    decreases n,
{
    if n > 0 {
        lemma_off(rules, sessions, all, (n - 1) as nat, now);
        assert(!rules[n - 1].enabled);
    }
}

/// Sessions of other fields than those of a rule show no attack by it.
pub proof fn law_other_fields_show_nothing(
    rule: CorrelationRuleModel,
    sessions: Seq<SessionModel>,
    all: Seq<Seq<char>>,
    n: nat,
    now: u64,
)
    requires
        n <= all.len(),
        forall|i: int|
            0 <= i < all.len() ==> !correlates_on(rule.correlation_fields, #[trigger] all[i]),
    ensures
        rule_chains(rule, sessions, all, n, now).len() == 0,
    decreases n,
{
    if n > 0 {
        law_other_fields_show_nothing(rule, sessions, all, (n - 1) as nat, now);
        assert(!correlates_on(rule.correlation_fields, all[n - 1]));
    }
}

/// Whether some events of a session are the steps of a rule: each meets its step, they
/// stand in order, and none comes more than the longest pause after the one before.
pub open spec fn are_steps(
    rule: CorrelationRuleModel,
    events: Seq<EventModel>,
    steps: Seq<int>,
) -> bool {
    &&& steps.len() <= rule.sequence.len()
    &&& forall|k: int|
        0 <= k < steps.len() ==> 0 <= #[trigger] steps[k] < events.len() && group_holds(
            rule.sequence[k],
            events[steps[k]].json,
        )
    &&& forall|j: int, k: int|
        0 <= j < k < steps.len() ==> #[trigger] steps[j] < #[trigger] steps[k]
    &&& forall|j: int, k: int|
        0 <= j && k == j + 1 && k < steps.len() ==> (events[#[trigger] steps[k]].timestamp
            - events[#[trigger] steps[j]].timestamp) / 1000 <= rule.max_gap_seconds
}

/// Whether the steps of an attack name the events that made them, in order.
pub open spec fn names_steps(
    stages: Seq<StageModel>,
    events: Seq<EventModel>,
    steps: Seq<int>,
) -> bool {
    &&& stages.len() == steps.len()
    &&& forall|k: int|
        0 <= k < steps.len() ==> {
            &&& (#[trigger] stages[k]).event_ids == seq![events[steps[k]].event_id]
            &&& stages[k].stage_name == "Stage "@ + decimal((k + 1) as nat)
            &&& stages[k].alert_ids == match events[steps[k]].alert_id {
                Some(id) => seq![id],
                None => Seq::empty(),
            }
        }
}

proof fn lemma_first_steps(
    rule: CorrelationRuleModel,
    events: Seq<EventModel>,
    steps: Seq<int>,
    k: nat,
    n: nat,
    now: u64,
)
    requires
        are_steps(rule, events, steps),
        steps.len() == rule.sequence.len(),
        forall|i: int|
            steps.len() > 0 && 0 <= i < steps[0] ==> !group_holds(
                rule.sequence[0],
                (#[trigger] events[i]).json,
            ),
        forall|i: int, j: int, k: int|
            0 <= j && k == j + 1 && k < steps.len() && #[trigger] steps[j] < i < #[trigger] steps[k]
                ==> !group_holds(rule.sequence[k], (#[trigger] events[i]).json) && (
            events[i].timestamp - events[steps[j]].timestamp) / 1000 <= rule.max_gap_seconds,
        k <= steps.len(),
        n <= events.len(),
        k > 0 ==> steps[k - 1] < n,
        k < steps.len() ==> n <= steps[k as int],
    ensures
        progress(rule, events, n, now).found == k,
        names_steps(progress(rule, events, n, now).stages, events, steps.take(k as int)),
        progress(rule, events, n, now).last == if k == 0 {
            None
        } else {
            Some(events[steps[k - 1]].timestamp)
        },
    decreases n,
{
    if n > 0 {
        let m = (n - 1) as nat;
        if k > 0 && steps[k - 1] == m {
            let j = (k - 1) as nat;
            if j > 0 {
                assert(steps[j - 1] < steps[j as int]);
            }
            lemma_first_steps(rule, events, steps, j, m, now);
            let p = progress(rule, events, m, now);
            assert(group_holds(rule.sequence[j as int], events[steps[j as int]].json));
            if j > 0 {
                assert((events[steps[j as int]].timestamp - events[steps[j - 1]].timestamp) / 1000
                    <= rule.max_gap_seconds);
            }
            assert(!too_late(rule, p.last, events[m as int].timestamp));
            assert(steps.take(k as int) =~= steps.take(j as int).push(steps[j as int]));
            let s = progress(rule, events, n, now).stages;
            assert(s == p.stages.push(stage(k, events[m as int], now)));
        } else {
            if k > 0 {
                assert(steps[k - 1] < m);
            }
            lemma_first_steps(rule, events, steps, k, m, now);
            if k < steps.len() {
                let e = events[m as int];
                assert(0 <= m < steps[k as int]);
                if k > 0 {
                    assert(steps[k - 1] < m < steps[k as int]);
                    assert((e.timestamp - events[steps[k - 1]].timestamp) / 1000
                        <= rule.max_gap_seconds);
                }
                assert(!too_late(rule, progress(rule, events, m, now).last, e.timestamp));
            }
        }
    }
}

/// Events of a session that meet the steps of a rule, each the first that does after
/// the one before, are an attack, whatever other events stand between them, as long
/// as none that is looked at comes more than the longest pause after the last step.
/// The attack names those events.
pub proof fn law_steps_among_other_events_are_an_attack(
    rule: CorrelationRuleModel,
    x: SessionModel,
    steps: Seq<int>,
    now: u64,
)
    requires
        are_steps(rule, x.events, steps),
        steps.len() == rule.sequence.len(),
        forall|i: int|
            steps.len() > 0 && 0 <= i < steps[0] ==> !group_holds(
                rule.sequence[0],
                (#[trigger] x.events[i]).json,
            ),
        forall|i: int, j: int, k: int|
            0 <= j && k == j + 1 && k < steps.len() && #[trigger] steps[j] < i < #[trigger] steps[k]
                ==> !group_holds(rule.sequence[k], (#[trigger] x.events[i]).json) && (
            x.events[i].timestamp - x.events[steps[j]].timestamp) / 1000 <= rule.max_gap_seconds,
    ensures
        chain_of(rule, x, now) matches Some(chain) && names_steps(chain.stages, x.events, steps),
{
    let n = x.events.len();
    lemma_first_steps(rule, x.events, steps, steps.len(), n, now);
    lemma_progress_length(rule, x.events, n, now);
    assert(steps.take(steps.len() as int) =~= steps);
}

proof fn lemma_progress_length(rule: CorrelationRuleModel, events: Seq<EventModel>, n: nat, now: u64)
    ensures
        progress(rule, events, n, now).found <= n,
    decreases n,
{
    if n > 0 {
        lemma_progress_length(rule, events, (n - 1) as nat, now);
    }
}

proof fn lemma_traced(
    rule: CorrelationRuleModel,
    events: Seq<EventModel>,
    n: nat,
    now: u64,
) -> (steps: Seq<int>)
    requires
        n <= events.len(),
    ensures
        are_steps(rule, events, steps),
        steps.len() == progress(rule, events, n, now).found,
        names_steps(progress(rule, events, n, now).stages, events, steps),
        forall|k: int| 0 <= k < steps.len() ==> #[trigger] steps[k] < n,
        steps.len() > 0 ==> progress(rule, events, n, now).last == Some(
            events[steps.last()].timestamp,
        ),
    decreases n,
{
    if n == 0 {
        Seq::empty()
    } else {
        let m = (n - 1) as nat;
        let before = lemma_traced(rule, events, m, now);
        let p = progress(rule, events, m, now);
        let e = events[m as int];
        if p.found >= rule.sequence.len() {
            before
        } else {
            let kept = if too_late(rule, p.last, e.timestamp) {
                Seq::empty()
            } else {
                before
            };
            if group_holds(rule.sequence[kept.len() as int], e.json) {
                let steps = kept.push(m as int);
                assert forall|j: int, k: int|
                    0 <= j && k == j + 1 && k < steps.len() implies (
                events[#[trigger] steps[k]].timestamp - events[#[trigger] steps[j]].timestamp)
                    / 1000 <= rule.max_gap_seconds by {
                    if k < kept.len() {
                        assert(kept[k] == steps[k] && kept[j] == steps[j]);
                    } else {
                        assert(steps[j] == before.last());
                    }
                }
                let s = progress(rule, events, n, now).stages;
                assert(s.last() == stage(steps.len(), e, now));
                assert forall|k: int| 0 <= k < steps.len() implies {
                    &&& (#[trigger] s[k]).event_ids == seq![events[steps[k]].event_id]
                    &&& s[k].stage_name == "Stage "@ + decimal((k + 1) as nat)
                    &&& s[k].alert_ids == match events[steps[k]].alert_id {
                        Some(id) => seq![id],
                        None => Seq::empty(),
                    }
                } by {
                    if k < kept.len() {
                        assert(s[k] == p.stages[k]);
                        assert(steps[k] == before[k]);
                    }
                }
                steps
            } else {
                kept
            }
        }
    }
}

/// What is taken for an attack happened: some events of the session met the steps of
/// the rule in order, none more than the longest pause after the one before, and the
/// attack names them.
pub proof fn law_attacks_happened(rule: CorrelationRuleModel, x: SessionModel, now: u64)
    ensures
        chain_of(rule, x, now) matches Some(chain) ==> exists|steps: Seq<int>|
            steps.len() == rule.sequence.len() && #[trigger] are_steps(rule, x.events, steps)
                && names_steps(chain.stages, x.events, steps),
{
    if chain_of(rule, x, now) is Some {
        let steps = lemma_traced(rule, x.events, x.events.len(), now);
        assert(are_steps(rule, x.events, steps));
    }
}

proof fn lemma_same_start(
    rule: CorrelationRuleModel,
    a: Seq<EventModel>,
    b: Seq<EventModel>,
    n: nat,
    now: u64,
)
    requires
        n <= a.len(),
        n <= b.len(),
        a.take(n as int) == b.take(n as int),
    ensures
        progress(rule, a, n, now) == progress(rule, b, n, now),
    decreases n,
{
    if n > 0 {
        assert(a.take(n as int)[n - 1] == b.take(n as int)[n - 1]);
        assert(a.take(n - 1) =~= a.take(n as int).drop_last());
        assert(b.take(n - 1) =~= b.take(n as int).drop_last());
        lemma_same_start(rule, a, b, (n - 1) as nat, now);
    }
}

proof fn lemma_passed_over(
    rule: CorrelationRuleModel,
    front: Seq<EventModel>,
    e: EventModel,
    back: Seq<EventModel>,
    n: nat,
    now: u64,
)
    requires
        n <= back.len(),
        ({
            let p = progress(rule, front, front.len(), now);
            &&& p.found < rule.sequence.len() ==> !group_holds(rule.sequence[p.found as int], e.json)
            &&& p.last matches Some(t) ==> (e.timestamp - t) / 1000 <= rule.max_gap_seconds
        }),
    ensures
        progress(rule, front.push(e) + back, front.len() + 1 + n, now) == progress(
            rule,
            front + back,
            front.len() + n,
            now,
        ),
    decreases n,
{
    let long = front.push(e) + back;
    let short = front + back;
    if n == 0 {
        assert(long.take(front.len() as int) =~= front.take(front.len() as int));
        assert(short.take(front.len() as int) =~= front.take(front.len() as int));
        lemma_same_start(rule, long, front, front.len(), now);
        lemma_same_start(rule, short, front, front.len(), now);
        assert(long[front.len() as int] == e);
        lemma_progress(rule, front, front.len(), now);
        let p = progress(rule, front, front.len(), now);
        assert(!too_late(rule, p.last, e.timestamp));
        assert(progress(rule, long, front.len() + 1, now) == followed(rule, p, e, now));
        assert(followed(rule, p, e, now) =~= p);
    } else {
        lemma_passed_over(rule, front, e, back, (n - 1) as nat, now);
        assert(long[(front.len() + n) as int] == back[n - 1]);
        assert(short[front.len() + n - 1] == back[n - 1]);
    }
}

/// An event that does not meet the next step, and comes not more than the longest pause
/// after the last one, leaves the steps that were found as they were, and changes
/// nothing of what is found behind it.
pub proof fn law_events_that_are_no_step_are_passed_over(
    rule: CorrelationRuleModel,
    x: SessionModel,
    front: Seq<EventModel>,
    e: EventModel,
    back: Seq<EventModel>,
    now: u64,
)
    requires
        ({
            let p = progress(rule, front, front.len(), now);
            &&& p.found < rule.sequence.len() ==> !group_holds(rule.sequence[p.found as int], e.json)
            &&& p.last matches Some(t) ==> (e.timestamp - t) / 1000 <= rule.max_gap_seconds
        }),
    ensures
        progress(rule, front.push(e), front.len() + 1, now) == progress(
            rule,
            front,
            front.len(),
            now,
        ),
        chain_of(rule, SessionModel { events: front.push(e) + back, ..x }, now) == chain_of(
            rule,
            SessionModel { events: front + back, ..x },
            now,
        ),
{
    lemma_passed_over(rule, front, e, Seq::empty(), 0, now);
    assert(front.push(e) + Seq::empty() =~= front.push(e));
    assert(front + Seq::empty() =~= front);
    lemma_passed_over(rule, front, e, back, back.len(), now);
    lemma_progress_length(rule, front + back, (front + back).len(), now);
}

/// An event that meets no step at all of a rule, and comes not more than the longest
/// pause after any event before it, is as if it had never been.
pub proof fn law_other_events_do_not_matter(
    rule: CorrelationRuleModel,
    x: SessionModel,
    front: Seq<EventModel>,
    e: EventModel,
    back: Seq<EventModel>,
    now: u64,
)
    requires
        forall|k: int|
            0 <= k < rule.sequence.len() ==> !group_holds(#[trigger] rule.sequence[k], e.json),
        forall|i: int|
            0 <= i < front.len() ==> (e.timestamp - (#[trigger] front[i]).timestamp) / 1000
                <= rule.max_gap_seconds,
    ensures
        chain_of(rule, SessionModel { events: front.push(e) + back, ..x }, now) == chain_of(
            rule,
            SessionModel { events: front + back, ..x },
            now,
        ),
{
    lemma_last_is_seen(rule, front, front.len(), now);
    law_events_that_are_no_step_are_passed_over(rule, x, front, e, back, now);
}

proof fn lemma_last_is_seen(rule: CorrelationRuleModel, events: Seq<EventModel>, n: nat, now: u64)
    requires
        n <= events.len(),
    ensures
        progress(rule, events, n, now).last matches Some(t) ==> exists|i: int|
            0 <= i < n && (#[trigger] events[i]).timestamp == t,
    decreases n,
{
    if n > 0 {
        lemma_last_is_seen(rule, events, (n - 1) as nat, now);
        assert(events[n - 1].timestamp == events[n - 1].timestamp);
    }
}

/// An event that comes more than the longest pause after the last step starts the
/// search over: it counts for the first step, or for none.
pub proof fn law_a_long_pause_starts_over(
    rule: CorrelationRuleModel,
    events: Seq<EventModel>,
    n: nat,
    now: u64,
)
    requires
        n < events.len(),
        progress(rule, events, n, now).found < rule.sequence.len(),
        progress(rule, events, n, now).last matches Some(t) && (events[n as int].timestamp - t)
            / 1000 > rule.max_gap_seconds,
    ensures
        progress(rule, events, n + 1, now).found == if group_holds(
            rule.sequence[0],
            events[n as int].json,
        ) {
            1nat
        } else {
            0
        },
{
    let before = lemma_traced(rule, events, n, now);
    assert(too_late(rule, progress(rule, events, n, now).last, events[n as int].timestamp));
}

/// An attack is as severe as its rule, is four fifths sure, and is about the
/// processes, addresses and files of its session.
pub proof fn law_attacks_tell_of_their_session(
    rule: CorrelationRuleModel,
    x: SessionModel,
    now: u64,
)
    ensures
        chain_of(rule, x, now) matches Some(chain) ==> {
            &&& chain.overall_severity == rule.severity
            &&& 5 * chain.overall_confidence == 4_000_000
            &&& chain.related_pids == x.pids
            &&& chain.related_ips == x.ips
            &&& chain.related_files == x.files
            &&& chain.last_seen == now
            &&& now >= x.first_seen ==> x.first_seen + chain.first_seen == now
        },
{
}

proof fn lemma_rule_chains_members(
    rule: CorrelationRuleModel,
    sessions: Seq<SessionModel>,
    all: Seq<Seq<char>>,
    n: nat,
    now: u64,
    c: ChainModel,
)
    requires
        n <= all.len(),
    ensures
        rule_chains(rule, sessions, all, n, now).contains(c) <==> exists|k: int|
            0 <= k < n && correlates_on(rule.correlation_fields, #[trigger] all[k]) && chain_at(
                rule,
                sessions,
                all[k],
                now,
            ) == Some(c),
    decreases n,
{
    if n > 0 {
        lemma_rule_chains_members(rule, sessions, all, (n - 1) as nat, now, c);
        let before = rule_chains(rule, sessions, all, (n - 1) as nat, now);
        let after = rule_chains(rule, sessions, all, n, now);
        if after.contains(c) {
            let i = choose|i: int| 0 <= i < after.len() && after[i] == c;
            if i < before.len() {
                assert(before[i] == c);
                assert(before.contains(c));
                let k = choose|k: int|
                    0 <= k < n - 1 && correlates_on(rule.correlation_fields, #[trigger] all[k])
                        && chain_at(rule, sessions, all[k], now) == Some(c);
                assert(correlates_on(rule.correlation_fields, all[k]));
            } else {
                assert(correlates_on(rule.correlation_fields, all[n - 1]));
            }
        }
        if exists|k: int|
            0 <= k < n && correlates_on(rule.correlation_fields, #[trigger] all[k]) && chain_at(
                rule,
                sessions,
                all[k],
                now,
            ) == Some(c) {
            let k = choose|k: int|
                0 <= k < n && correlates_on(rule.correlation_fields, #[trigger] all[k]) && chain_at(
                    rule,
                    sessions,
                    all[k],
                    now,
                ) == Some(c);
            if k < n - 1 {
                assert(correlates_on(rule.correlation_fields, all[k]));
                assert(before.contains(c));
                let i = choose|i: int| 0 <= i < before.len() && before[i] == c;
                assert(after[i] == c);
            } else {
                assert(after.last() == c);
            }
        }
    }
}

proof fn lemma_all_chains_members(
    rules: Seq<CorrelationRuleModel>,
    sessions: Seq<SessionModel>,
    all: Seq<Seq<char>>,
    n: nat,
    now: u64,
    c: ChainModel,
)
    requires
        n <= rules.len(),
    ensures
        all_chains(rules, sessions, all, n, now).contains(c) <==> exists|r: int, k: int|
            0 <= r < n && 0 <= k < all.len() && (#[trigger] rules[r]).enabled && correlates_on(
                rules[r].correlation_fields,
                #[trigger] all[k],
            ) && chain_at(rules[r], sessions, all[k], now) == Some(c),
    decreases n,
{
    if n > 0 {
        lemma_all_chains_members(rules, sessions, all, (n - 1) as nat, now, c);
        let before = all_chains(rules, sessions, all, (n - 1) as nat, now);
        let after = all_chains(rules, sessions, all, n, now);
        let rule = rules[n - 1];
        let own = rule_chains(rule, sessions, all, all.len(), now);
        lemma_rule_chains_members(rule, sessions, all, all.len(), now, c);
        if rule.enabled {
            assert(after == before + own);
            assert(after.contains(c) <==> before.contains(c) || own.contains(c)) by {
                if before.contains(c) {
                    let i = choose|i: int| 0 <= i < before.len() && before[i] == c;
                    assert(after[i] == c);
                }
                if own.contains(c) {
                    let i = choose|i: int| 0 <= i < own.len() && own[i] == c;
                    assert(after[before.len() + i] == c);
                }
                if after.contains(c) {
                    let i = choose|i: int| 0 <= i < after.len() && after[i] == c;
                    if i < before.len() {
                        assert(before[i] == c);
                    } else {
                        assert(own[i - before.len()] == c);
                    }
                }
            }
        }
        if before.contains(c) {
            let (r, k) = choose|r: int, k: int|
                0 <= r < n - 1 && 0 <= k < all.len() && (#[trigger] rules[r]).enabled
                    && correlates_on(rules[r].correlation_fields, #[trigger] all[k]) && chain_at(
                    rules[r],
                    sessions,
                    all[k],
                    now,
                ) == Some(c);
            assert(rules[r].enabled && correlates_on(rules[r].correlation_fields, all[k]));
        }
        if rule.enabled && own.contains(c) {
            let k = choose|k: int|
                0 <= k < all.len() && correlates_on(rule.correlation_fields, #[trigger] all[k])
                    && chain_at(rule, sessions, all[k], now) == Some(c);
            assert(rules[n - 1].enabled && correlates_on(
                rules[n - 1].correlation_fields,
                all[k],
            ));
        }
        if exists|r: int, k: int|
            0 <= r < n && 0 <= k < all.len() && (#[trigger] rules[r]).enabled && correlates_on(
                rules[r].correlation_fields,
                #[trigger] all[k],
            ) && chain_at(rules[r], sessions, all[k], now) == Some(c) {
            let (r, k) = choose|r: int, k: int|
                0 <= r < n && 0 <= k < all.len() && (#[trigger] rules[r]).enabled && correlates_on(
                    rules[r].correlation_fields,
                    #[trigger] all[k],
                ) && chain_at(rules[r], sessions, all[k], now) == Some(c);
            if r < n - 1 {
                assert(rules[r].enabled && correlates_on(rules[r].correlation_fields, all[k]));
                assert(before.contains(c));
            } else {
                assert(correlates_on(rule.correlation_fields, all[k]));
                assert(own.contains(c));
            }
        }
    }
}

/// What comes out with an event is what the rules that are on find in the sessions that
/// the event belongs to, by the fields that they name, and nothing else.
pub proof fn law_attacks_come_from_the_sessions_of_the_event(
    m: CorrelationModel,
    event: TelemetryEvent,
    json: Option<JsonModel>,
    alert_id: Option<Seq<char>>,
    now: u64,
    c: ChainModel,
)
    ensures
        found_chains(m, event, json, alert_id, now).contains(c) <==> exists|r: int, k: int|
            0 <= r < m.rules.len() && 0 <= k < keys(event.payload).len() && (
            #[trigger] m.rules[r]).enabled && correlates_on(
                m.rules[r].correlation_fields,
                #[trigger] keys(event.payload)[k],
            ) && chain_at(
                m.rules[r],
                after_event(m, event, json, alert_id, now).sessions,
                keys(event.payload)[k],
                now,
            ) == Some(c),
{
    lemma_all_chains_members(
        m.rules,
        after_event(m, event, json, alert_id, now).sessions,
        keys(event.payload),
        m.rules.len(),
        now,
        c,
    );
}

/// A rule that names fields takes exactly the sessions of those fields. One that names
/// none takes all but those of the name of a process.
pub proof fn law_fields_choose_the_sessions(
    fields: Seq<Seq<char>>,
    field: Seq<char>,
    value: Seq<char>,
    key: Seq<char>,
)
    ensures
        fields.contains(field) ==> correlates_on(fields, field + ":"@ + value),
        fields.len() > 0 && correlates_on(fields, key) ==> exists|f: Seq<char>, v: Seq<char>|
            fields.contains(f) && key == #[trigger] (f + ":"@ + v),
        fields.len() == 0 ==> !correlates_on(fields, "process_name:"@ + value),
        fields.len() == 0 && !correlates_on(fields, key) ==> exists|v: Seq<char>|
            key == #[trigger] ("process_name:"@ + v),
{
    if fields.contains(field) {
        let i = choose|i: int| 0 <= i < fields.len() && fields[i] == field;
        let front = fields[i] + ":"@;
        assert((field + ":"@ + value).subrange(0, front.len() as int) =~= front);
        assert(begins(field + ":"@ + value, fields[i] + ":"@));
    }
    if fields.len() > 0 && correlates_on(fields, key) {
        let i = choose|i: int| 0 <= i < fields.len() && begins(key, #[trigger] fields[i] + ":"@);
        let front = fields[i] + ":"@;
        assert(key =~= key.subrange(0, front.len() as int) + key.skip(front.len() as int));
        assert(key == fields[i] + ":"@ + key.skip(front.len() as int));
        assert(fields.contains(fields[i]));
    }
    let name = "process_name:"@;
    assert((name + value).subrange(0, name.len() as int) =~= name);
    if begins(key, name) {
        assert(key =~= key.subrange(0, name.len() as int) + key.skip(name.len() as int));
        assert(key == name + key.skip(name.len() as int));
    }
}

/// An event belongs to the session of its process, and to those of what else it has.
pub proof fn law_events_belong_to_sessions(payload: EventPayload)
    ensures
        payload matches EventPayload::Process(p) ==> {
            &&& keys(payload).contains("pid:"@ + decimal(p.pid as nat))
            &&& keys(payload).contains("ppid:"@ + decimal(p.ppid as nat))
            &&& keys(payload).contains("user:"@ + p.user@)
            &&& keys(payload).contains("process_name:"@ + p.name@)
            &&& p.sha256@.len() > 0 ==> keys(payload).contains("sha256:"@ + hex_digits(p.sha256@))
        },
        payload matches EventPayload::Network(n) ==> {
            &&& keys(payload).contains("pid:"@ + decimal(n.pid as nat))
            &&& keys(payload).contains("remote_ip:"@ + n.remote_ip@)
            &&& keys(payload).contains("process_name:"@ + n.process_name@)
        },
        payload matches EventPayload::File(f) ==> {
            &&& keys(payload).contains("pid:"@ + decimal(f.pid as nat))
            &&& keys(payload).contains("file_sha256:"@ + hex_digits(f.sha256@))
            &&& keys(payload).contains("process_name:"@ + f.process_name@)
        },
        payload matches EventPayload::Registry(r) ==> {
            &&& keys(payload).contains("pid:"@ + decimal(r.pid as nat))
            &&& keys(payload).contains("process_name:"@ + r.process_name@)
        },
{
    let all = keys(payload);
    match payload {
        EventPayload::Process(p) => {
            assert(all[0] == "pid:"@ + decimal(p.pid as nat));
            assert(all[1] == "ppid:"@ + decimal(p.ppid as nat));
            assert(all[2] == "user:"@ + p.user@);
            assert(all[all.len() - 1] == "process_name:"@ + p.name@);
            if p.sha256@.len() > 0 {
                assert(all[3] == "sha256:"@ + hex_digits(p.sha256@));
            }
        },
        EventPayload::Network(n) => {
            assert(all[0] == "pid:"@ + decimal(n.pid as nat));
            assert(all[1] == "remote_ip:"@ + n.remote_ip@);
            assert(all[2] == "process_name:"@ + n.process_name@);
        },
        EventPayload::File(f) => {
            assert(all[0] == "pid:"@ + decimal(f.pid as nat));
            assert(all[1] == "file_sha256:"@ + hex_digits(f.sha256@));
            assert(all[2] == "process_name:"@ + f.process_name@);
        },
        EventPayload::Registry(r) => {
            assert(all[0] == "pid:"@ + decimal(r.pid as nat));
            assert(all[1] == "process_name:"@ + r.process_name@);
        },
        _ => {},
    }
}

/// The session of a key, where there is one.
pub open spec fn session_of(sessions: Seq<SessionModel>, key: Seq<char>) -> Option<SessionModel> {
    match position(sessions, key) {
        Some(i) => Some(sessions[i]),
        None => None,
    }
}

proof fn lemma_filed(
    sessions: Seq<SessionModel>,
    key: Seq<char>,
    payload: EventPayload,
    e: EventModel,
    other: Seq<char>,
)
    ensures
        session_of(filed(sessions, key, payload, e), other) == if key == other {
            Some(
                with_event(
                    match session_of(sessions, key) {
                        Some(x) => x,
                        None => new_session(key, e.timestamp),
                    },
                    payload,
                    e,
                ),
            )
        } else {
            session_of(sessions, other)
        },
{
    let after = filed(sessions, key, payload, e);
    lemma_first_index(sessions, of_key(key));
    lemma_first_index(sessions, of_key(other));
    lemma_first_index(after, of_key(other));
    match position(sessions, key) {
        Some(i) => {
            assert(after[i] == with_event(sessions[i], payload, e));
            assert(after[i].key == key);
            assert forall|j: int| 0 <= j < sessions.len() implies (#[trigger] after[j]).key
                == sessions[j].key by {}
            if key == other {
                assert forall|j: int| 0 <= j < i implies !of_key(other)(#[trigger] after[j]) by {
                    assert(!of_key(key)(sessions[j]));
                }
                lemma_first_index_is(after, of_key(other), i);
            } else {
                match position(sessions, other) {
                    Some(k) => {
                        assert forall|j: int| 0 <= j < k implies !of_key(other)(
                            #[trigger] after[j],
                        ) by {
                            assert(!of_key(other)(sessions[j]));
                        }
                        lemma_first_index_is(after, of_key(other), k);
                    },
                    None => {
                        if position(after, other) is Some {
                            let k = position(after, other)->0;
                            assert(!of_key(other)(sessions[k]));
                        }
                    },
                }
            }
        },
        None => {
            let n = sessions.len() as int;
            assert(after[n].key == key);
            assert forall|j: int| 0 <= j < n implies #[trigger] after[j] == sessions[j] by {}
            if key == other {
                assert forall|j: int| 0 <= j < n implies !of_key(other)(#[trigger] after[j]) by {
                    assert(!of_key(key)(sessions[j]));
                }
                lemma_first_index_is(after, of_key(other), n);
            } else {
                match position(sessions, other) {
                    Some(k) => {
                        assert forall|j: int| 0 <= j < k implies !of_key(other)(
                            #[trigger] after[j],
                        ) by {
                            assert(!of_key(other)(sessions[j]));
                        }
                        lemma_first_index_is(after, of_key(other), k);
                    },
                    None => {
                        if position(after, other) is Some {
                            let k = position(after, other)->0;
                            if k < n {
                                assert(!of_key(other)(sessions[k]));
                            }
                        }
                    },
                }
            }
        },
    }
}

proof fn lemma_filed_all(
    sessions: Seq<SessionModel>,
    all: Seq<Seq<char>>,
    n: nat,
    payload: EventPayload,
    e: EventModel,
    key: Seq<char>,
)
    requires
        n <= all.len(),
        forall|i: int, j: int| 0 <= i < j < all.len() ==> #[trigger] all[i] != #[trigger] all[j],
    ensures
        session_of(filed_all(sessions, all, n, payload, e), key) == if exists|i: int|
            0 <= i < n && #[trigger] all[i] == key {
            Some(
                with_event(
                    match session_of(sessions, key) {
                        Some(x) => x,
                        None => new_session(key, e.timestamp),
                    },
                    payload,
                    e,
                ),
            )
        } else {
            session_of(sessions, key)
        },
    decreases n,
{
    if n > 0 {
        lemma_filed_all(sessions, all, (n - 1) as nat, payload, e, key);
        lemma_filed(
            filed_all(sessions, all, (n - 1) as nat, payload, e),
            all[n - 1],
            payload,
            e,
            key,
        );
        if all[n - 1] == key {
            assert(!(exists|i: int| 0 <= i < n - 1 && #[trigger] all[i] == key));
        }
    }
}

proof fn lemma_keys_differ(payload: EventPayload)
    ensures
        forall|i: int, j: int|
            0 <= i < j < keys(payload).len() ==> #[trigger] keys(payload)[i]
                != #[trigger] keys(payload)[j],
{
    reveal_strlit("pid:");
    reveal_strlit("ppid:");
    reveal_strlit("user:");
    reveal_strlit("sha256:");
    reveal_strlit("process_name:");
    reveal_strlit("remote_ip:");
    reveal_strlit("file_sha256:");
    let all = keys(payload);
    assert forall|i: int, j: int| 0 <= i < j < all.len() implies #[trigger] all[i]
        != #[trigger] all[j] by {
        assert(all[i][0] != all[j][0] || all[i][1] != all[j][1]);
    }
}

proof fn lemma_living(sessions: Seq<SessionModel>, key: Seq<char>, now: u64)
    requires
        forall|i: int, j: int|
            0 <= i < j < sessions.len() ==> (#[trigger] sessions[i]).key != (
            #[trigger] sessions[j]).key,
    ensures
        session_of(sessions.filter(alive(now)), key) == match session_of(sessions, key) {
            Some(x) => if alive(now)(x) {
                Some(x)
            } else {
                None
            },
            None => None,
        },
{
    let kept = sessions.filter(alive(now));
    lemma_filter_members(sessions, alive(now));
    lemma_filter_distinct(sessions, alive(now), |x: SessionModel| x.key);
    lemma_first_index(sessions, of_key(key));
    lemma_first_index(kept, of_key(key));
    if position(kept, key) is Some {
        let k = position(kept, key)->0;
        assert(sessions.contains(kept[k]));
        let i = choose|i: int| 0 <= i < sessions.len() && sessions[i] == kept[k];
        assert(of_key(key)(sessions[i]));
        let p = position(sessions, key)->0;
        assert(sessions[p].key == key && sessions[i].key == key);
        assert(p == i);
    }
    if position(sessions, key) is Some {
        let p = position(sessions, key)->0;
        if alive(now)(sessions[p]) {
            assert(kept.contains(sessions[p]));
            let k = choose|k: int| 0 <= k < kept.len() && kept[k] == sessions[p];
            assert(of_key(key)(kept[k]));
        }
    }
}

/// An event goes, as the last one, to the session of each of its keys, behind the events
/// that the session had, and to no other session. A session without an event for an
/// hour is forgotten.
pub proof fn law_events_go_to_their_sessions(
    m: CorrelationModel,
    event: TelemetryEvent,
    json: Option<JsonModel>,
    alert_id: Option<Seq<char>>,
    now: u64,
    key: Seq<char>,
)
    requires
        forall|i: int, j: int|
            0 <= i < j < m.sessions.len() ==> (#[trigger] m.sessions[i]).key != (
            #[trigger] m.sessions[j]).key,
    ensures
        ({
            let before = session_of(m.sessions, key);
            let after = session_of(after_event(m, event, json, alert_id, now).sessions, key);
            let lives = before is Some && now - before->0.last_seen < 3_600_000;
            let e = EventModel { event_id: event.event_id@, json, alert_id, timestamp: now };
            &&& !keys(event.payload).contains(key) ==> after == if lives {
                before
            } else {
                None
            }
            &&& keys(event.payload).contains(key) ==> after is Some && after->0.last_seen == now
            &&& keys(event.payload).contains(key) && !lives ==> after->0.events == seq![e]
                && after->0.first_seen == now
            &&& keys(event.payload).contains(key) && lives ==> after->0.first_seen
                == before->0.first_seen
            &&& keys(event.payload).contains(key) && lives && before->0.events.len() < 1_000
                ==> after->0.events == before->0.events.push(e)
            &&& keys(event.payload).contains(key) && lives && before->0.events.len() == 1_000
                ==> after->0.events == before->0.events.drop_first().push(e)
        }),
{
    let all = keys(event.payload);
    let e = kept_event(event, json, alert_id, now);
    lemma_keys_differ(event.payload);
    lemma_living(m.sessions, key, now);
    lemma_filed_all(m.sessions.filter(alive(now)), all, all.len(), event.payload, e, key);
    let before = session_of(m.sessions, key);
    let after = session_of(after_event(m, event, json, alert_id, now).sessions, key);
    if all.contains(key) {
        let i = choose|i: int| 0 <= i < all.len() && all[i] == key;
        assert(all[i] == key);
        if before is Some && alive(now)(before->0) {
            if before->0.events.len() == 1_000 {
                assert(after->0.events =~= before->0.events.drop_first().push(e));
            }
        } else {
            assert(after->0.events =~= seq![e]);
        }
    } else {
        assert(!(exists|i: int| 0 <= i < all.len() && #[trigger] all[i] == key));
    }
}

/// What a session is about grows by the process, the address and the file of each event
/// that goes to it, and by nothing else.
pub proof fn law_sessions_gather(x: SessionModel, payload: EventPayload, e: EventModel, pid: u32, text: Seq<char>)
    ensures
        with_event(x, payload, e).pids.contains(pid) <==> x.pids.contains(pid) || (match payload {
            EventPayload::Process(p) => p.pid == pid,
            EventPayload::Network(n) => n.pid == pid,
            EventPayload::File(f) => f.pid == pid,
            EventPayload::Registry(r) => r.pid == pid,
            _ => false,
        }),
        with_event(x, payload, e).ips.contains(text) <==> x.ips.contains(text) || (payload matches
            EventPayload::Network(n) && n.remote_ip@ == text),
        with_event(x, payload, e).files.contains(text) <==> x.files.contains(text) || (
        payload matches EventPayload::File(f) && f.path@ == text),
        with_event(x, payload, e).key == x.key,
{
    let y = with_event(x, payload, e);
    assert(forall|i: int| 0 <= i < x.pids.len() ==> #[trigger] y.pids[i] == x.pids[i]);
    assert(forall|i: int| 0 <= i < x.ips.len() ==> #[trigger] y.ips[i] == x.ips[i]);
    assert(forall|i: int| 0 <= i < x.files.len() ==> #[trigger] y.files[i] == x.files[i]);
    if x.pids.contains(pid) {
        let i = choose|i: int| 0 <= i < x.pids.len() && x.pids[i] == pid;
        assert(y.pids[i] == pid);
    }
    if x.ips.contains(text) {
        let i = choose|i: int| 0 <= i < x.ips.len() && x.ips[i] == text;
        assert(y.ips[i] == text);
    }
    if x.files.contains(text) {
        let i = choose|i: int| 0 <= i < x.files.len() && x.files[i] == text;
        assert(y.files[i] == text);
    }
    match payload {
        EventPayload::Process(p) => {
            if !x.pids.contains(p.pid) {
                assert(y.pids.last() == p.pid);
            }
        },
        EventPayload::Network(n) => {
            if !x.pids.contains(n.pid) {
                assert(y.pids.last() == n.pid);
            }
            if !x.ips.contains(n.remote_ip@) {
                assert(y.ips.last() == n.remote_ip@);
            }
        },
        EventPayload::File(f) => {
            if !x.pids.contains(f.pid) {
                assert(y.pids.last() == f.pid);
            }
            if !x.files.contains(f.path@) {
                assert(y.files.last() == f.path@);
            }
        },
        EventPayload::Registry(r) => {
            if !x.pids.contains(r.pid) {
                assert(y.pids.last() == r.pid);
            }
        },
        _ => {},
    }
}

} // verus!
