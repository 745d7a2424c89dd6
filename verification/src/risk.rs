//! How risky a process has shown itself to be: a score that grows with what is
//! seen and falls with time.
//!
//! Scores are whole numbers of millionths of a point.
use vstd::prelude::*;

use crate::collect::retain;
use crate::telemetry::current_timestamp;

verus! {

/// The highest score.
pub const MAX_SCORE: u64 = 100_000_000;

/// For how long a factor counts, in milliseconds.
pub const FACTOR_LIFETIME_MS: u64 = 86_400_000;

/// One contribution to a score.
pub struct RiskFactor {
    pub name: String,
    /// In millionths of a point.
    pub score: u64,
    pub description: String,
    pub timestamp: u64,
}

/// What a contribution says.
#[verifier::ext_equal]
pub struct FactorModel {
    pub name: Seq<char>,
    pub score: u64,
    pub description: Seq<char>,
    pub timestamp: u64,
}

impl View for RiskFactor {
    type V = FactorModel;

    open spec fn view(&self) -> FactorModel {
        FactorModel {
            name: self.name@,
            score: self.score,
            description: self.description@,
            timestamp: self.timestamp,
        }
    }
}

impl Clone for RiskFactor {
    fn clone(&self) -> (r: RiskFactor)
        ensures
            r@ == self@,
    {
        RiskFactor {
            name: self.name.clone(),
            score: self.score,
            description: self.description.clone(),
            timestamp: self.timestamp,
        }
    }
}

/// What contributions say.
pub open spec fn factors_view(v: Seq<RiskFactor>) -> Seq<FactorModel> {
    v.map_values(|f: RiskFactor| f@)
}

/// A copy of each contribution.
pub fn copy_factors(v: &Vec<RiskFactor>) -> (r: Vec<RiskFactor>)
    ensures
        factors_view(r@) == factors_view(v@),
{
    let mut r: Vec<RiskFactor> = Vec::new();
    let mut i: usize = 0;
    assert(factors_view(r@) =~= factors_view(v@).take(0));
    while i < v.len()
        invariant
            i <= v@.len(),
            factors_view(r@) == factors_view(v@).take(i as int),
        decreases v@.len() - i,
    {
        let ghost before = r@;
        r.push(v[i].clone());
        assert(factors_view(r@) =~= factors_view(before).push(v@[i as int]@));
        assert(factors_view(v@).take(i + 1) =~= factors_view(v@).take(i as int).push(
            factors_view(v@)[i as int],
        ));
        i += 1;
    }
    assert(factors_view(v@).take(i as int) =~= factors_view(v@));
    r
}

/// The score of a process.
pub struct RiskScore {
    /// The process's name.
    pub process_key: String,
    /// In millionths of a point, at most a hundred points.
    pub score: u64,
    pub last_update: u64,
    pub factors: Vec<RiskFactor>,
}

/// What a score says.
#[verifier::ext_equal]
pub struct RiskModel {
    pub process_key: Seq<char>,
    pub score: u64,
    pub last_update: u64,
    pub factors: Seq<FactorModel>,
}

impl View for RiskScore {
    type V = RiskModel;

    open spec fn view(&self) -> RiskModel {
        RiskModel {
            process_key: self.process_key@,
            score: self.score,
            last_update: self.last_update,
            factors: factors_view(self.factors@),
        }
    }
}

/// A score at one moment.
pub struct RiskScoreSnapshot {
    pub process_key: String,
    pub pid: Option<u32>,
    /// In millionths of a point.
    pub score: u64,
    pub last_update: u64,
    pub snapshot_at: u64,
    pub factors: Vec<RiskFactor>,
}

/// What a score at one moment says.
#[verifier::ext_equal]
pub struct SnapshotModel {
    pub process_key: Seq<char>,
    pub pid: Option<u32>,
    pub score: u64,
    pub last_update: u64,
    pub snapshot_at: u64,
    pub factors: Seq<FactorModel>,
}

impl View for RiskScoreSnapshot {
    type V = SnapshotModel;

    open spec fn view(&self) -> SnapshotModel {
        SnapshotModel {
            process_key: self.process_key@,
            pid: self.pid,
            score: self.score,
            last_update: self.last_update,
            snapshot_at: self.snapshot_at,
            factors: factors_view(self.factors@),
        }
    }
}

/// A score at one moment.
pub open spec fn snapshot_of(m: RiskModel, pid: Option<u32>, now: u64) -> SnapshotModel {
    SnapshotModel {
        process_key: m.process_key,
        pid,
        score: m.score,
        last_update: m.last_update,
        snapshot_at: now,
        factors: m.factors,
    }
}

/// No risk.
pub open spec fn no_risk(process_key: Seq<char>, now: u64) -> RiskModel {
    RiskModel { process_key, score: 0, last_update: now, factors: Seq::empty() }
}

/// A sum of scores, up to the highest.
pub open spec fn raised(score: u64, by: u64) -> u64 {
    if score + by >= MAX_SCORE {
        MAX_SCORE
    } else {
        (score + by) as u64
    }
}

/// A score with one contribution more.
pub open spec fn with_factor(
    m: RiskModel,
    name: Seq<char>,
    score: u64,
    description: Seq<char>,
    now: u64,
) -> RiskModel {
    RiskModel {
        process_key: m.process_key,
        score: raised(m.score, score),
        last_update: now,
        factors: m.factors.push(FactorModel { name, score, description, timestamp: now }),
    }
}

/// A score after it fell by so much an hour, at least zero.
pub open spec fn fallen(score: u64, per_hour: u64, elapsed_ms: int) -> u64 {
    let loss = per_hour * elapsed_ms / 3_600_000;
    if loss >= score {
        0
    } else {
        (score - loss) as u64
    }
}

/// Whether a contribution is newer than a time.
pub open spec fn newer_than(cutoff: int) -> spec_fn(FactorModel) -> bool {
    |f: FactorModel| f.timestamp > cutoff
}

/// A score after time passed: it has fallen, and without what is a day old.
pub open spec fn decayed(m: RiskModel, per_hour: u64, now: u64) -> RiskModel {
    RiskModel {
        process_key: m.process_key,
        score: fallen(m.score, per_hour, now - m.last_update),
        last_update: now,
        factors: m.factors.filter(newer_than(now - FACTOR_LIFETIME_MS)),
    }
}

/// A score once the clock shows `now`: time has passed where the clock stands past a
/// day and has not gone back, and otherwise nothing changes.
pub open spec fn decayed_by_clock(m: RiskModel, decay_per_hour: u64, now: u64) -> RiskModel {
    if m.last_update <= now && FACTOR_LIFETIME_MS <= now {
        decayed(m, decay_per_hour, now)
    } else {
        m
    }
}

fn is_newer(f: &RiskFactor, cutoff: u64) -> (r: bool)
    ensures
        r == (f.timestamp > cutoff),
{
    f.timestamp > cutoff
}

proof fn lemma_filter_view(v: Seq<RiskFactor>, p: spec_fn(RiskFactor) -> bool, q: spec_fn(FactorModel) -> bool)
    requires
        forall|f: RiskFactor| #[trigger] p(f) == q(f@),
    ensures
        factors_view(v.filter(p)) == factors_view(v).filter(q),
    decreases v.len(),
{
    reveal(Seq::filter);
    if v.len() > 0 {
        lemma_filter_view(v.drop_last(), p, q);
        assert(factors_view(v).drop_last() =~= factors_view(v.drop_last()));
        assert(factors_view(v).last() == v.last()@);
        let kept = v.drop_last().filter(p);
        if p(v.last()) {
            assert(factors_view(kept.push(v.last())) =~= factors_view(kept).push(v.last()@));
        }
    } else {
        assert(factors_view(v.filter(p)) =~= factors_view(v).filter(q));
    }
}

impl RiskScore {
    /// No risk, as of `now`.
    pub fn starting_at(process_key: &str, now: u64) -> (r: RiskScore)
        ensures
            r@ == no_risk(process_key@, now),
    {
        let r = RiskScore {
            process_key: process_key.to_string(),
            score: 0,
            last_update: now,
            factors: Vec::new(),
        };
        assert(r@ =~= no_risk(process_key@, now));
        r
    }

    /// No risk, as of the present time.
    pub fn new(process_key: &str) -> (r: RiskScore)
        ensures
            r@ == no_risk(process_key@, r.last_update),
    {
        RiskScore::starting_at(process_key, current_timestamp())
    }

    /// Adds a contribution at `now`.
    pub fn add_factor_at(&mut self, name: &str, score: u64, description: &str, now: u64)
        ensures
            final(self)@ == with_factor(old(self)@, name@, score, description@, now),
            final(self).score <= MAX_SCORE,
    {
        self.factors.push(
            RiskFactor {
                name: name.to_string(),
                score,
                description: description.to_string(),
                timestamp: now,
            },
        );
        self.score = if self.score >= MAX_SCORE || score >= MAX_SCORE - self.score {
            MAX_SCORE
        } else {
            self.score + score
        };
        self.last_update = now;
        assert(factors_view(self.factors@) =~= factors_view(old(self).factors@).push(
            self.factors@.last()@,
        ));
    }

    /// Adds a contribution at the present time.
    pub fn add_factor(&mut self, name: &str, score: u64, description: &str)
        ensures
            final(self)@ == with_factor(
                old(self)@,
                name@,
                score,
                description@,
                final(self).last_update,
            ),
            final(self).score <= MAX_SCORE,
    {
        self.add_factor_at(name, score, description, current_timestamp());
    }

    /// Lets time pass until `now`.
    pub fn apply_decay_at(&mut self, decay_per_hour: u64, now: u64)
        requires
            old(self).last_update <= now,
            FACTOR_LIFETIME_MS <= now,
        ensures
            final(self)@ == decayed(old(self)@, decay_per_hour, now),
    {
        let elapsed: u128 = (now - self.last_update) as u128;
        let rate: u128 = decay_per_hour as u128;
        assert(rate * elapsed <= 0xffff_ffff_ffff_ffff * 0xffff_ffff_ffff_ffff) by (nonlinear_arith)
            requires
                rate <= 0xffff_ffff_ffff_ffff,
                elapsed <= 0xffff_ffff_ffff_ffff,
        ;
        assert(rate * elapsed == decay_per_hour * (now - old(self).last_update));
        let loss: u128 = rate * elapsed / 3_600_000;
        self.score = if loss >= self.score as u128 {
            0
        } else {
            (self.score as u128 - loss) as u64
        };
        self.last_update = now;
        let cutoff: u64 = now - FACTOR_LIFETIME_MS;
        let ghost p = |f: RiskFactor| f.timestamp > cutoff;
        let keep = |f: &RiskFactor| -> (b: bool)
            ensures
                b == (f.timestamp > cutoff),
            { is_newer(f, cutoff) };
        retain(&mut self.factors, keep, Ghost(p));
        proof {
            lemma_filter_view(old(self).factors@, p, newer_than(now - FACTOR_LIFETIME_MS));
        }
    }

    /// Lets time pass until the present time, where the clock stands past a day
    /// and has not gone back; where it has, nothing changes.
    pub fn apply_decay(&mut self, decay_per_hour: u64)
        ensures
            exists|now: u64|
                final(self)@ == #[trigger] decayed_by_clock(old(self)@, decay_per_hour, now),
    {
        let now: u64 = current_timestamp();
        if self.last_update <= now && FACTOR_LIFETIME_MS <= now {
            self.apply_decay_at(decay_per_hour, now);
        }
        assert(self@ == decayed_by_clock(old(self)@, decay_per_hour, now));
    }

    /// The score at one moment.
    pub fn snapshot_at(&self, pid: Option<u32>, now: u64) -> (r: RiskScoreSnapshot)
        ensures
            r@ == snapshot_of(self@, pid, now),
    {
        RiskScoreSnapshot {
            process_key: self.process_key.clone(),
            pid,
            score: self.score,
            last_update: self.last_update,
            snapshot_at: now,
            factors: copy_factors(&self.factors),
        }
    }

    /// The score at the present time.
    pub fn snapshot(&self, pid: Option<u32>) -> (r: RiskScoreSnapshot)
        ensures
            r@ == snapshot_of(self@, pid, r.snapshot_at),
    {
        self.snapshot_at(pid, current_timestamp())
    }
}

/// A score is never above a hundred points, whatever is added.
pub proof fn law_score_has_a_ceiling(
    m: RiskModel,
    name: Seq<char>,
    score: u64,
    description: Seq<char>,
    now: u64,
)
    ensures
        with_factor(m, name, score, description, now).score <= MAX_SCORE,
{
}

/// Adding a contribution never lowers a score that was not above the ceiling.
pub proof fn law_factors_never_lower(
    m: RiskModel,
    name: Seq<char>,
    score: u64,
    description: Seq<char>,
    now: u64,
)
    requires
        m.score <= MAX_SCORE,
    ensures
        m.score <= with_factor(m, name, score, description, now).score,
{
}

/// Time never raises a score, and after more time it is no higher.
pub proof fn law_time_never_raises(score: u64, per_hour: u64, sooner: int, later: int)
    requires
        0 <= sooner <= later,
    ensures
        fallen(score, per_hour, sooner) <= score,
        fallen(score, per_hour, later) <= fallen(score, per_hour, sooner),
{
    let a = per_hour * sooner;
    let b = per_hour * later;
    assert(0 <= a <= b) by (nonlinear_arith)
        requires
            a == per_hour * sooner,
            b == per_hour * later,
            0 <= sooner <= later,
    ;
}

/// A contribution raises a score by what it is worth, up to a hundred points, and is
/// remembered with when it came.
pub proof fn law_factors_add_up(
    m: RiskModel,
    name: Seq<char>,
    score: u64,
    description: Seq<char>,
    now: u64,
)
    ensures
        ({
            let after = with_factor(m, name, score, description, now);
            &&& m.score + score <= 100_000_000 ==> after.score == m.score + score
            &&& m.score + score > 100_000_000 ==> after.score == 100_000_000
            &&& after.process_key == m.process_key
            &&& after.last_update == now
            &&& after.factors.drop_last() == m.factors
            &&& after.factors.len() == m.factors.len() + 1
            &&& after.factors.last().name == name
            &&& after.factors.last().score == score
            &&& after.factors.last().description == description
            &&& after.factors.last().timestamp == now
        }),
{
}

/// In each hour a score falls by what it falls by in an hour, down to nothing. What it
/// rests on is kept for a day and forgotten after.
pub proof fn law_scores_fall_by_the_hour(m: RiskModel, per_hour: u64, hours: nat, now: u64)
    requires
        now == m.last_update + hours * 3_600_000,
    ensures
        ({
            let after = decayed(m, per_hour, now);
            &&& m.score >= per_hour * hours ==> after.score == m.score - per_hour * hours
            &&& m.score < per_hour * hours ==> after.score == 0
            &&& after.last_update == now
            &&& after.process_key == m.process_key
            &&& forall|f: FactorModel| #[trigger]
                after.factors.contains(f) <==> m.factors.contains(f) && now - f.timestamp
                    < 86_400_000
        }),
{
    let elapsed = now - m.last_update;
    assert(per_hour * elapsed / 3_600_000 == per_hour * hours) by (nonlinear_arith)
        requires
            elapsed == hours * 3_600_000,
    ;
    let p = newer_than(now - FACTOR_LIFETIME_MS);
    let after = decayed(m, per_hour, now);
    crate::collect::lemma_filter_members(m.factors, p);
    assert forall|f: FactorModel| #[trigger]
        after.factors.contains(f) <==> m.factors.contains(f) && now - f.timestamp < 86_400_000 by {
        if after.factors.contains(f) {
            let j = choose|j: int| 0 <= j < after.factors.len() && after.factors[j] == f;
            assert(p(m.factors.filter(p)[j]));
        }
        if m.factors.contains(f) && now - f.timestamp < 86_400_000 {
            let i = choose|i: int| 0 <= i < m.factors.len() && m.factors[i] == f;
            assert(p(m.factors[i]));
        }
    }
}

} // verus!
