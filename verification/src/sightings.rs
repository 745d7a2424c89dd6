//! When rules matched of late: what rules on the number of events in a time count.
use vstd::prelude::*;

use crate::alert_rules::{rule_matches, AlertRule, RuleModel, TimeCondition, TimeModel};
use crate::collect::{count_where, lemma_filter_map, lemma_filter_members, retain};
use crate::correlation::{elapsed, time_between};
use crate::json::{opt_json, value_at, JsonModel, JsonValue};
use crate::text::same;
use crate::words::{pieces, pieces_of};

verus! {

/// That a rule matched an event.
pub struct Sighting {
    pub rule_id: String,
    /// What the event is grouped by, if it has it.
    pub group: Option<JsonValue>,
    /// When the event came, in milliseconds.
    pub at: u64,
}

/// What a sighting says.
#[verifier::ext_equal]
pub struct SightingModel {
    pub rule_id: Seq<char>,
    pub group: Option<JsonModel>,
    pub at: u64,
}

/// What a value is, if there is one.
pub open spec fn held_json(value: Option<JsonValue>) -> Option<JsonModel> {
    match value {
        Some(v) => Some(v@),
        None => None,
    }
}

impl View for Sighting {
    type V = SightingModel;

    open spec fn view(&self) -> SightingModel {
        SightingModel { rule_id: self.rule_id@, group: held_json(self.group), at: self.at }
    }
}

/// What a sighting says.
pub open spec fn of_sighting() -> spec_fn(Sighting) -> SightingModel {
    |s: Sighting| s@
}

/// What some sightings say.
pub open spec fn sightings_view(v: Seq<Sighting>) -> Seq<SightingModel> {
    v.map_values(of_sighting())
}

/// What an event is grouped by, if it is and has it.
pub open spec fn group_of(c: TimeModel, json: Option<JsonModel>) -> Option<JsonModel> {
    match (c.group_by, json) {
        (Some(field), Some(value)) => value_at(value, pieces(field, '.'), 0),
        _ => None,
    }
}

/// Whether a moment lies within the time that a condition counts in.
pub open spec fn in_time(c: TimeModel, at: u64, now: u64) -> bool {
    elapsed(at, now) <= c.window_seconds * 1000
}

/// Whether a sighting is kept: it is of another rule, or still counts.
pub open spec fn kept(rule_id: Seq<char>, c: TimeModel, now: u64) -> spec_fn(SightingModel) -> bool {
    |s: SightingModel| s.rule_id != rule_id || in_time(c, s.at, now)
}

/// Whether a sighting counts for a rule on an event.
pub open spec fn counted(
    rule_id: Seq<char>,
    c: TimeModel,
    group: Option<JsonModel>,
    now: u64,
) -> spec_fn(SightingModel) -> bool {
    |s: SightingModel| s.rule_id == rule_id && s.group == group && in_time(c, s.at, now)
}

/// The sightings once a rule was held against an event. Where it matches and counts,
/// that is noted, and what no longer counts for it is forgotten.
pub open spec fn after_rule(
    seen: Seq<SightingModel>,
    rule: RuleModel,
    json: Option<JsonModel>,
    now: u64,
) -> Seq<SightingModel> {
    match rule.time_condition {
        Some(c) => if rule_matches(rule, json) {
            seen.filter(kept(rule.rule_id, c, now)).push(
                SightingModel { rule_id: rule.rule_id, group: group_of(c, json), at: now },
            )
        } else {
            seen
        },
        None => seen,
    }
}

/// Whether a rule raises an alert on an event: it matches, and where it counts, it
/// has matched as many events of the group in the time as it takes, this one among
/// them.
pub open spec fn raises(
    seen: Seq<SightingModel>,
    rule: RuleModel,
    json: Option<JsonModel>,
    now: u64,
) -> bool {
    rule_matches(rule, json) && match rule.time_condition {
        Some(c) => after_rule(seen, rule, json, now).filter(
            counted(rule.rule_id, c, group_of(c, json), now),
        ).len() >= c.count,
        None => true,
    }
}

fn find_group(c: &TimeCondition, json: Option<&JsonValue>) -> (r: Option<JsonValue>)
    ensures
        held_json(r) == group_of(c@, opt_json(json)),
{
    match (&c.group_by, json) {
        (Some(field), Some(value)) => match value.at(&pieces_of(field.as_str(), '.')) {
            Some(v) => Some(v.clone()),
            None => None,
        },
        _ => None,
    }
}

fn is_in_time(c: &TimeCondition, at: u64, now: u64) -> (r: bool)
    ensures
        r == in_time(c@, at, now),
{
    time_between(at, now) as u128 <= c.window_seconds as u128 * 1000
}

fn same_group(a: &Option<JsonValue>, b: &Option<JsonValue>) -> (r: bool)
    ensures
        r == (held_json(*a) == held_json(*b)),
{
    match (a, b) {
        (Some(x), Some(y)) => x.equals(y),
        (None, None) => true,
        _ => false,
    }
}

/// Holds a rule against an event, given as it is written out, if it can be: whether
/// it raises an alert. What rules count is noted.
pub fn hold_against(
    seen: &mut Vec<Sighting>,
    rule: &AlertRule,
    json: Option<&JsonValue>,
    now: u64,
) -> (r: bool)
    ensures
        sightings_view(final(seen)@) == after_rule(
            sightings_view(old(seen)@),
            rule@,
            opt_json(json),
            now,
        ),
        r == raises(sightings_view(old(seen)@), rule@, opt_json(json), now),
{
    if !rule.matches(json) {
        return false;
    }
    match &rule.time_condition {
        None => true,
        Some(c) => {
            let group = find_group(c, json);
            let ghost model = held_json(group);
            let ghost start = seen@;
            let ghost q = kept(rule.rule_id@, c@, now);
            let ghost p = |s: Sighting| q(s@);
            let keep = |s: &Sighting| -> (b: bool)
                ensures
                    b == q(s@),
                { !same(s.rule_id.as_str(), rule.rule_id.as_str()) || is_in_time(c, s.at, now) };
            retain(seen, keep, Ghost(p));
            proof {
                lemma_filter_map(start, of_sighting(), p, q);
            }
            let ghost before = sightings_view(seen@);
            let sighting = Sighting {
                rule_id: rule.rule_id.clone(),
                group: match &group {
                    Some(v) => Some(v.clone()),
                    None => None,
                },
                at: now,
            };
            let ghost next = sighting@;
            seen.push(sighting);
            assert(sightings_view(seen@) =~= before.push(next));
            let ghost q2 = counted(rule.rule_id@, c@, model, now);
            let ghost p2 = |s: Sighting| q2(s@);
            let counts = |s: &Sighting| -> (b: bool)
                ensures
                    b == q2(s@),
                {
                    same(s.rule_id.as_str(), rule.rule_id.as_str()) && same_group(
                        &s.group,
                        &group,
                    ) && is_in_time(c, s.at, now)
                };
            let n: usize = count_where(seen, counts, Ghost(p2));
            proof {
                lemma_filter_map(seen@, of_sighting(), p2, q2);
            }
            n as u64 >= c.count as u64
        },
    }
}

/// A rule that takes one event or none raises an alert on every event that it matches.
pub proof fn law_one_event_is_enough(
    seen: Seq<SightingModel>,
    rule: RuleModel,
    json: Option<JsonModel>,
    now: u64,
)
    requires
        rule_matches(rule, json),
        rule.time_condition matches Some(c) ==> c.count <= 1,
    ensures
        raises(seen, rule, json, now),
{
    if let Some(c) = rule.time_condition {
        let after = after_rule(seen, rule, json, now);
        let q = counted(rule.rule_id, c, group_of(c, json), now);
        lemma_filter_members(after, q);
        assert(q(after[after.len() - 1]));
        assert(after.filter(q).contains(after[after.len() - 1]));
    }
}

/// A rule that takes several events raises no alert on the first of them.
pub proof fn law_first_event_is_not_enough(
    seen: Seq<SightingModel>,
    rule: RuleModel,
    json: Option<JsonModel>,
    now: u64,
)
    requires
        rule.time_condition matches Some(c) && c.count >= 2,
        forall|i: int| 0 <= i < seen.len() ==> (#[trigger] seen[i]).rule_id != rule.rule_id,
    ensures
        !raises(seen, rule, json, now),
{
    if rule_matches(rule, json) {
        let c = rule.time_condition->0;
        let q = counted(rule.rule_id, c, group_of(c, json), now);
        let before = seen.filter(kept(rule.rule_id, c, now));
        let after = after_rule(seen, rule, json, now);
        lemma_filter_members(seen, kept(rule.rule_id, c, now));
        assert forall|i: int| 0 <= i < before.len() implies !q(#[trigger] before[i]) by {
            assert(seen.contains(before[i]));
            let k = choose|k: int| 0 <= k < seen.len() && seen[k] == before[i];
            assert(seen[k].rule_id != rule.rule_id);
        }
        assert(after.drop_last() =~= before);
        lemma_filter_members(before, q);
        if before.filter(q).len() > 0 {
            let first = before.filter(q)[0];
            assert(before.contains(first) && q(first));
        }
        reveal(Seq::filter);
        assert(after.filter(q).len() <= 1);
    }
}

proof fn lemma_counted_are_kept(
    seen: Seq<SightingModel>,
    rule_id: Seq<char>,
    c: TimeModel,
    group: Option<JsonModel>,
    now: u64,
)
    ensures
        seen.filter(kept(rule_id, c, now)).filter(counted(rule_id, c, group, now)) == seen.filter(
            counted(rule_id, c, group, now),
        ),
    decreases seen.len(),
{
    reveal(Seq::filter);
    let p = kept(rule_id, c, now);
    let q = counted(rule_id, c, group, now);
    if seen.len() > 0 {
        let rest = seen.drop_last();
        lemma_counted_are_kept(rest, rule_id, c, group, now);
        let x = seen.last();
        if p(x) {
            assert(seen.filter(p).drop_last() =~= rest.filter(p));
        }
    }
}

/// A rule that counts raises an alert on an event that it matches exactly where, with this
/// one, it matched as many events with the same value of what they are grouped by, and
/// none longer ago than the time that it counts in.
pub proof fn law_alerts_come_with_the_count(
    seen: Seq<SightingModel>,
    rule: RuleModel,
    json: Option<JsonModel>,
    now: u64,
    c: TimeModel,
)
    requires
        rule.time_condition == Some(c),
    ensures
        raises(seen, rule, json, now) <==> rule_matches(rule, json) && 1 + seen.filter(
            |s: SightingModel|
                s.rule_id == rule.rule_id && s.group == group_of(c, json) && now - s.at
                    <= c.window_seconds * 1000,
        ).len() >= c.count,
{
    let group = group_of(c, json);
    let q = counted(rule.rule_id, c, group, now);
    let r = |s: SightingModel|
        s.rule_id == rule.rule_id && s.group == group_of(c, json) && now - s.at
            <= c.window_seconds * 1000;
    lemma_counted_are_kept(seen, rule.rule_id, c, group, now);
    let kept = seen.filter(kept(rule.rule_id, c, now));
    let this = SightingModel { rule_id: rule.rule_id, group, at: now };
    assert(q(this));
    assert(kept.push(this).filter(q) == kept.filter(q).push(this)) by {
        reveal(Seq::filter);
        assert(kept.push(this).drop_last() =~= kept);
    }
    lemma_same_filter(seen, q, r);
}

proof fn lemma_same_filter(
    seen: Seq<SightingModel>,
    p: spec_fn(SightingModel) -> bool,
    q: spec_fn(SightingModel) -> bool,
)
    requires
        forall|s: SightingModel| #[trigger] p(s) == q(s),
    ensures
        seen.filter(p) == seen.filter(q),
    decreases seen.len(),
{
    reveal(Seq::filter);
    if seen.len() > 0 {
        lemma_same_filter(seen.drop_last(), p, q);
        assert(p(seen.last()) == q(seen.last()));
    }
}

} // verus!
