//! Risk that fades with time.
//!
//! How much of a risk is left after some time is told from outside, as decays in
//! millionths, one for each entry.
use vstd::prelude::*;

use crate::alert::{severity_weight, AlertSeverity};
use crate::collect::{
    first_index, lemma_filter_members, lemma_first_index, lemma_first_index_is,
    lemma_first_index_map, position_where, retain,
};
use crate::telemetry::{Detection, DetectionModel, DetectionType, ONE};

verus! {

/// A hundred points, in millionths.
pub const MAX_RISK: u64 = 100_000_000;

/// After how many seconds half of a risk is left.
pub const HALF_LIFE_SECONDS: u64 = 3_600;

/// After how many milliseconds a risk is forgotten: ten half-lives.
pub const RISK_LIFETIME_MS: u64 = 36_000_000;

/// How many entries a process has at most.
pub const MAX_ENTRIES: usize = 100;

/// How many entries the machine has at most.
pub const MAX_ENDPOINT_ENTRIES: usize = 1_000;

/// One risk.
#[derive(Clone, Copy, Debug, PartialEq, Eq, Structural)]
pub struct RiskEntry {
    /// How high it is, in millionths of millionths.
    pub score: u64,
    /// When it came up, in milliseconds.
    pub timestamp: u64,
}

/// What a kind of detection weighs.
pub open spec fn kind_weight(kind: DetectionType) -> u64 {
    match kind {
        DetectionType::Ransomware => 10,
        DetectionType::Malware => 8,
        DetectionType::MemoryThreat => 7,
        DetectionType::Honeyfile => 9,
        DetectionType::DriverThreat => 8,
        DetectionType::ThreatIntel => 6,
        DetectionType::Behavioral => 5,
        DetectionType::Yara => 6,
        DetectionType::Sigma => 5,
        DetectionType::Ioc => 6,
        DetectionType::Entropy => 3,
        DetectionType::WmiPersistence => 6,
        DetectionType::UsbThreat => 4,
        _ => 1,
    }
}

fn weight_of_kind(kind: DetectionType) -> (r: u64)
    ensures
        r == kind_weight(kind),
        1 <= r <= 10,
{
    match kind {
        DetectionType::Ransomware => 10,
        DetectionType::Malware => 8,
        DetectionType::MemoryThreat => 7,
        DetectionType::Honeyfile => 9,
        DetectionType::DriverThreat => 8,
        DetectionType::ThreatIntel => 6,
        DetectionType::Behavioral => 5,
        DetectionType::Yara => 6,
        DetectionType::Sigma => 5,
        DetectionType::Ioc => 6,
        DetectionType::Entropy => 3,
        DetectionType::WmiPersistence => 6,
        DetectionType::UsbThreat => 4,
        _ => 1,
    }
}

/// How high the risk of a detection is: what its kind weighs, times what the
/// severity weighs, times the confidence.
pub open spec fn detection_score(d: DetectionModel, severity: AlertSeverity) -> u64 {
    (kind_weight(d.detection_type) * severity_weight(severity) * d.confidence) as u64
}

/// The risks of a process.
#[derive(Debug)]
pub struct ProcessRisks {
    pub pid: u32,
    pub entries: Vec<RiskEntry>,
}

/// What the risks of a process are.
#[verifier::ext_equal]
pub struct ProcessRisksModel {
    pub pid: u32,
    pub entries: Seq<RiskEntry>,
}

impl View for ProcessRisks {
    type V = ProcessRisksModel;

    open spec fn view(&self) -> ProcessRisksModel {
        ProcessRisksModel { pid: self.pid, entries: self.entries@ }
    }
}

/// What the risks of a process are.
pub open spec fn of_risks() -> spec_fn(ProcessRisks) -> ProcessRisksModel {
    |p: ProcessRisks| p@
}

/// What the risks of some processes are.
pub open spec fn processes_view(processes: Seq<ProcessRisks>) -> Seq<ProcessRisksModel> {
    processes.map_values(of_risks())
}

/// Whether risks are those of a process.
pub open spec fn of_process(pid: u32) -> spec_fn(ProcessRisksModel) -> bool {
    |p: ProcessRisksModel| p.pid == pid
}

/// Where the risks of a process stand.
pub open spec fn position(processes: Seq<ProcessRisksModel>, pid: u32) -> Option<int> {
    first_index(processes, of_process(pid))
}

/// The risks of a process.
pub open spec fn entries_of(processes: Seq<ProcessRisksModel>, pid: u32) -> Seq<RiskEntry> {
    match position(processes, pid) {
        Some(i) => processes[i].entries,
        None => Seq::empty(),
    }
}

/// What a scorer knows.
#[verifier::ext_equal]
pub struct ScorerModel {
    pub processes: Seq<ProcessRisksModel>,
    pub endpoint: Seq<RiskEntry>,
}

/// Some risks and one more, without the oldest where there are too many.
pub open spec fn with_risk(entries: Seq<RiskEntry>, entry: RiskEntry, max: usize) -> Seq<RiskEntry> {
    if entries.push(entry).len() > max {
        entries.push(entry).drop_first()
    } else {
        entries.push(entry)
    }
}

/// What a scorer knows once a detection on a process was scored.
pub open spec fn scored(
    m: ScorerModel,
    pid: u32,
    d: DetectionModel,
    severity: AlertSeverity,
    now: u64,
) -> ScorerModel {
    let entry = RiskEntry { score: detection_score(d, severity), timestamp: now };
    ScorerModel {
        processes: match position(m.processes, pid) {
            Some(i) => m.processes.update(
                i,
                ProcessRisksModel {
                    pid,
                    entries: with_risk(m.processes[i].entries, entry, MAX_ENTRIES),
                },
            ),
            None => m.processes.push(ProcessRisksModel { pid, entries: seq![entry] }),
        },
        endpoint: with_risk(m.endpoint, entry, MAX_ENDPOINT_ENTRIES),
    }
}

/// How much of the `i`-th risk is left; one of which nothing is told is whole.
pub open spec fn decay(decays: Seq<u32>, i: int) -> u32 {
    if i < decays.len() {
        decays[i]
    } else {
        ONE
    }
}

/// What is left of the first `n` risks, together.
pub open spec fn left_over(entries: Seq<RiskEntry>, decays: Seq<u32>, n: nat) -> nat
    decreases n,
{
    if n == 0 {
        0
    } else {
        left_over(entries, decays, (n - 1) as nat) + (entries[n - 1].score * decay(
            decays,
            n - 1,
        )) as nat
    }
}

/// The risk that is left, in millionths of a point: ten times the sum, and no more
/// than a hundred points.
pub open spec fn decayed_risk(entries: Seq<RiskEntry>, decays: Seq<u32>) -> u64 {
    let risk = left_over(entries, decays, entries.len()) / 100_000_000_000;
    if risk >= MAX_RISK {
        MAX_RISK
    } else {
        risk as u64
    }
}

/// Whether a risk is not forgotten yet.
pub open spec fn recent(now: u64) -> spec_fn(RiskEntry) -> bool {
    |e: RiskEntry| now - e.timestamp < RISK_LIFETIME_MS
}

fn is_recent(e: &RiskEntry, now: u64) -> (r: bool)
    ensures
        r == recent(now)(*e),
{
    now < e.timestamp || now - e.timestamp < RISK_LIFETIME_MS
}

/// Whether a process has risks.
pub open spec fn at_risk() -> spec_fn(ProcessRisksModel) -> bool {
    |p: ProcessRisksModel| p.entries.len() > 0
}

/// The risks of some processes without those that are forgotten.
pub open spec fn faded(processes: Seq<ProcessRisksModel>, now: u64) -> Seq<ProcessRisksModel> {
    processes.map_values(
        |p: ProcessRisksModel|
            ProcessRisksModel { pid: p.pid, entries: p.entries.filter(recent(now)) },
    )
}

/// What a scorer knows once the forgotten risks are gone.
pub open spec fn cleaned(m: ScorerModel, now: u64) -> ScorerModel {
    ScorerModel {
        processes: faded(m.processes, now).filter(at_risk()),
        endpoint: m.endpoint.filter(recent(now)),
    }
}

/// Adds up risks, and lets them fade.
#[derive(Debug)]
pub struct RiskScorer {
    /// By process.
    pub process_scores: Vec<ProcessRisks>,
    /// Of the machine.
    pub endpoint_score: Vec<RiskEntry>,
}

impl View for RiskScorer {
    type V = ScorerModel;

    open spec fn view(&self) -> ScorerModel {
        ScorerModel {
            processes: processes_view(self.process_scores@),
            endpoint: self.endpoint_score@,
        }
    }
}

/// Whether no more risks are kept than may be.
pub open spec fn bounded(m: ScorerModel) -> bool {
    &&& m.endpoint.len() <= MAX_ENDPOINT_ENTRIES
    &&& forall|i: int|
        0 <= i < m.processes.len() ==> (#[trigger] m.processes[i]).entries.len() <= MAX_ENTRIES
}

fn sum_risks(entries: &Vec<RiskEntry>, decays: &[u32]) -> (r: u64)
    requires
        entries@.len() <= MAX_ENDPOINT_ENTRIES,
    ensures
        r == decayed_risk(entries@, decays@),
{
    let mut total: u128 = 0;
    let mut i: usize = 0;
    while i < entries.len()
        invariant
            i <= entries@.len() <= MAX_ENDPOINT_ENTRIES,
            total == left_over(entries@, decays@, i as nat),
            total <= i * 0xffff_ffff_ffff_ffff_ffff_ffff,
        decreases entries@.len() - i,
    {
        let part: u32 = if i < decays.len() {
            decays[i]
        } else {
            ONE
        };
        let score: u64 = entries[i].score;
        assert(0 <= (score as int) * (part as int) <= 0xffff_ffff_ffff_ffff_ffff_ffff)
            by (nonlinear_arith)
            requires
                0 <= (score as int) <= 0xffff_ffff_ffff_ffff,
                0 <= (part as int) <= 0xffff_ffff,
        ;
        let product: u128 = score as u128 * part as u128;
        total = total + product;
        i += 1;
    }
    let risk: u128 = total / 100_000_000_000;
    if risk >= MAX_RISK as u128 {
        MAX_RISK
    } else {
        risk as u64
    }
}

fn add_risk(entries: &mut Vec<RiskEntry>, entry: RiskEntry, max: usize)
    requires
        old(entries)@.len() <= max,
        max < usize::MAX,
    ensures
        final(entries)@ == with_risk(old(entries)@, entry, max),
        max > 0 ==> final(entries)@.len() <= max,
{
    entries.push(entry);
    if entries.len() > max {
        let ghost all = entries@;
        entries.remove(0);
        assert(entries@ =~= all.drop_first());
    }
}

impl RiskScorer {
    /// Whether no more risks are kept than may be.
    pub open spec fn wf(&self) -> bool {
        bounded(self@)
    }

    /// A scorer without risks.
    pub fn new() -> (r: RiskScorer)
        ensures
            r.wf(),
            r@ == (ScorerModel { processes: Seq::empty(), endpoint: Seq::empty() }),
    {
        let r = RiskScorer { process_scores: Vec::new(), endpoint_score: Vec::new() };
        assert(processes_view(r.process_scores@) =~= Seq::empty());
        r
    }

    fn index_of(&self, pid: u32) -> (r: Option<usize>)
        ensures
            match r {
                Some(i) => position(self@.processes, pid) == Some(i as int) && i
                    < self.process_scores@.len() && self.process_scores@[i as int].pid == pid,
                None => position(self@.processes, pid) is None,
            },
    {
        let ghost p = |x: ProcessRisks| of_process(pid)(x@);
        let meets = |x: &ProcessRisks| -> (b: bool)
            ensures
                b == of_process(pid)(x@),
            { x.pid == pid };
        let r = position_where(&self.process_scores, meets, Ghost(p));
        proof {
            lemma_first_index_map(self.process_scores@, of_risks(), p, of_process(pid));
        }
        r
    }

    /// Scores a detection on a process.
    pub fn add_process_risk(
        &mut self,
        pid: u32,
        detection: &Detection,
        severity: AlertSeverity,
        now: u64,
    )
        requires
            old(self).wf(),
        ensures
            final(self).wf(),
            final(self)@ == scored(old(self)@, pid, detection@, severity, now),
    {
        let base: u64 = weight_of_kind(detection.detection_type);
        let weight: u64 = severity.weight() as u64;
        let confidence: u64 = detection.confidence as u64;
        assert(0 <= base * weight <= 10_000_000) by (nonlinear_arith)
            requires
                0 <= base <= 10,
                0 <= weight <= 1_000_000,
        ;
        let both: u64 = base * weight;
        assert(0 <= both * confidence <= 10_000_000 * 0xffff_ffff) by (nonlinear_arith)
            requires
                0 <= both <= 10_000_000,
                0 <= confidence <= 0xffff_ffff,
        ;
        let entry = RiskEntry { score: both * confidence, timestamp: now };
        assert(entry.score == detection_score(detection@, severity));
        let ghost before = self@;
        match self.index_of(pid) {
            Some(i) => {
                let ghost list = self.process_scores@;
                let mut risks = self.process_scores.remove(i);
                proof {
                    assert(before.processes[i as int] == risks@);
                }
                add_risk(&mut risks.entries, entry, MAX_ENTRIES);
                self.process_scores.insert(i, risks);
                assert(processes_view(self.process_scores@) =~= before.processes.update(
                    i as int,
                    risks@,
                ));
            },
            None => {
                let mut entries: Vec<RiskEntry> = Vec::new();
                entries.push(entry);
                assert(entries@ =~= seq![entry]);
                let risks = ProcessRisks { pid, entries };
                let ghost model = risks@;
                self.process_scores.push(risks);
                assert(processes_view(self.process_scores@) =~= before.processes.push(model));
            },
        }
        add_risk(&mut self.endpoint_score, entry, MAX_ENDPOINT_ENTRIES);
        proof {
            lemma_first_index(before.processes, of_process(pid));
            assert forall|k: int| 0 <= k < self@.processes.len() implies (
            #[trigger] self@.processes[k]).entries.len() <= MAX_ENTRIES by {
                if k < before.processes.len() {
                    assert(before.processes[k].entries.len() <= MAX_ENTRIES);
                }
            }
        }
    }

    /// How many milliseconds old the risks of a process are, to tell how much of
    /// each is left.
    pub fn process_ages(&self, pid: u32, now: u64) -> (r: Vec<u64>)
        ensures
            r@ == ages(entries_of(self@.processes, pid), now),
    {
        match self.index_of(pid) {
            Some(i) => {
                assert(self@.processes[i as int] == self.process_scores@[i as int]@);
                find_ages(&self.process_scores[i].entries, now)
            },
            None => {
                let r: Vec<u64> = Vec::new();
                assert(r@ =~= ages(Seq::empty(), now));
                r
            },
        }
    }

    /// How many milliseconds old the risks of the machine are.
    pub fn endpoint_ages(&self, now: u64) -> (r: Vec<u64>)
        ensures
            r@ == ages(self@.endpoint, now),
    {
        find_ages(&self.endpoint_score, now)
    }

    /// The risk of a process, in millionths of a point.
    pub fn get_process_risk(&self, pid: u32, decays: &[u32]) -> (r: u64)
        requires
            self.wf(),
        ensures
            r == decayed_risk(entries_of(self@.processes, pid), decays@),
            r <= MAX_RISK,
    {
        match self.index_of(pid) {
            Some(i) => {
                assert(self@.processes[i as int] == self.process_scores@[i as int]@);
                sum_risks(&self.process_scores[i].entries, decays)
            },
            None => 0,
        }
    }

    /// The risk of the machine, in millionths of a point.
    pub fn get_endpoint_risk(&self, decays: &[u32]) -> (r: u64)
        requires
            self.wf(),
        ensures
            r == decayed_risk(self@.endpoint, decays@),
            r <= MAX_RISK,
    {
        sum_risks(&self.endpoint_score, decays)
    }

    /// Forgets the risks that have faded.
    pub fn cleanup(&mut self, now: u64)
        requires
            old(self).wf(),
        ensures
            final(self).wf(),
            final(self)@ == cleaned(old(self)@, now),
    {
        let ghost before = self@;
        let ghost goal = faded(before.processes, now);
        let ghost q = recent(now);
        let mut i: usize = 0;
        while i < self.process_scores.len()
            invariant
                i <= self.process_scores@.len(),
                self.process_scores@.len() == before.processes.len(),
                before == old(self)@,
                q == recent(now),
                goal == faded(before.processes, now),
                self.endpoint_score@ == before.endpoint,
                forall|k: int|
                    0 <= k < i ==> (#[trigger] self.process_scores@[k])@ == goal[k],
                forall|k: int|
                    i <= k < before.processes.len() ==> (#[trigger] self.process_scores@[k])@
                        == before.processes[k],
            decreases self.process_scores@.len() - i,
        {
            let ghost list = self.process_scores@;
            assert(list[i as int]@ == before.processes[i as int]);
            let mut risks = self.process_scores.remove(i);
            let keep = |e: &RiskEntry| -> (b: bool)
                ensures
                    b == q(*e),
                { is_recent(e, now) };
            retain(&mut risks.entries, keep, Ghost(q));
            assert(risks@ == goal[i as int]);
            self.process_scores.insert(i, risks);
            assert(self.process_scores@ =~= list.update(i as int, risks));
            i += 1;
        }
        assert(processes_view(self.process_scores@) =~= goal);
        let ghost all = self.process_scores@;
        let ghost p = |x: ProcessRisks| at_risk()(x@);
        let keep = |x: &ProcessRisks| -> (b: bool)
            ensures
                b == at_risk()(x@),
            { x.entries.len() > 0 };
        retain(&mut self.process_scores, keep, Ghost(p));
        proof {
            crate::collect::lemma_filter_map(all, of_risks(), p, at_risk());
        }
        let keep = |e: &RiskEntry| -> (b: bool)
            ensures
                b == q(*e),
            { is_recent(e, now) };
        retain(&mut self.endpoint_score, keep, Ghost(q));
        proof {
            lemma_cleaned_bounded(before, now);
        }
    }
}

impl Default for RiskScorer {
    fn default() -> (r: RiskScorer)
        ensures
            r.wf(),
            r@ == (ScorerModel { processes: Seq::empty(), endpoint: Seq::empty() }),
    {
        RiskScorer::new()
    }
}

proof fn lemma_cleaned_bounded(m: ScorerModel, now: u64)
    requires
        bounded(m),
    ensures
        bounded(cleaned(m, now)),
{
    lemma_filter_members(m.endpoint, recent(now));
    let all = faded(m.processes, now);
    lemma_filter_members(all, at_risk());
    let kept = all.filter(at_risk());
    assert forall|i: int| 0 <= i < kept.len() implies (#[trigger] kept[i]).entries.len()
        <= MAX_ENTRIES by {
        assert(all.contains(kept[i]));
        let k = choose|k: int| 0 <= k < all.len() && all[k] == kept[i];
        assert(m.processes[k].entries.len() <= MAX_ENTRIES);
        lemma_filter_members(m.processes[k].entries, recent(now));
    }
}

/// How many milliseconds old some risks are.
pub open spec fn ages(entries: Seq<RiskEntry>, now: u64) -> Seq<u64> {
    entries.map_values(
        |e: RiskEntry|
            if now >= e.timestamp {
                (now - e.timestamp) as u64
            } else {
                0
            },
    )
}

fn find_ages(entries: &Vec<RiskEntry>, now: u64) -> (r: Vec<u64>)
    ensures
        r@ == ages(entries@, now),
{
    let ghost all = ages(entries@, now);
    let mut r: Vec<u64> = Vec::new();
    let mut i: usize = 0;
    assert(r@ =~= all.take(0));
    while i < entries.len()
        invariant
            i <= entries@.len(),
            all == ages(entries@, now),
            r@ == all.take(i as int),
        decreases entries@.len() - i,
    {
        let at: u64 = entries[i].timestamp;
        r.push(
            if now >= at {
                now - at
            } else {
                0
            },
        );
        assert(r@ =~= all.take(i + 1));
        i += 1;
    }
    assert(all.take(i as int) =~= all);
    r
}

/// A scorer keeps no more risks than it may, whatever it scores and forgets.
pub proof fn law_kept_risks_are_bounded(
    m: ScorerModel,
    pid: u32,
    d: DetectionModel,
    severity: AlertSeverity,
    now: u64,
)
    requires
        bounded(m),
    ensures
        bounded(scored(m, pid, d, severity, now)),
        bounded(cleaned(m, now)),
{
    lemma_cleaned_bounded(m, now);
    lemma_first_index(m.processes, of_process(pid));
    let after = scored(m, pid, d, severity, now);
    assert forall|k: int| 0 <= k < after.processes.len() implies (
    #[trigger] after.processes[k]).entries.len() <= MAX_ENTRIES by {
        if k < m.processes.len() {
            assert(m.processes[k].entries.len() <= MAX_ENTRIES);
        }
    }
}

/// The less is left of each risk, the lower the risk is.
pub proof fn law_fading_never_raises_risk(
    entries: Seq<RiskEntry>,
    sooner: Seq<u32>,
    later: Seq<u32>,
)
    requires
        forall|i: int| 0 <= i < entries.len() ==> #[trigger] decay(later, i) <= decay(sooner, i),
    ensures
        decayed_risk(entries, later) <= decayed_risk(entries, sooner),
{
    lemma_less_left(entries, sooner, later, entries.len());
    let a = left_over(entries, later, entries.len());
    let b = left_over(entries, sooner, entries.len());
    assert(a / 100_000_000_000 <= b / 100_000_000_000) by (nonlinear_arith)
        requires
            a <= b,
    ;
}

proof fn lemma_less_left(entries: Seq<RiskEntry>, sooner: Seq<u32>, later: Seq<u32>, n: nat)
    requires
        n <= entries.len(),
        forall|i: int| 0 <= i < entries.len() ==> #[trigger] decay(later, i) <= decay(sooner, i),
    ensures
        left_over(entries, later, n) <= left_over(entries, sooner, n),
    decreases n,
{
    if n > 0 {
        lemma_less_left(entries, sooner, later, (n - 1) as nat);
        let s = entries[n - 1].score as int;
        let x = decay(later, n - 1) as int;
        let y = decay(sooner, n - 1) as int;
        assert(0 <= s * x <= s * y) by (nonlinear_arith)
            requires
                s >= 0,
                0 <= x <= y,
        ;
    }
}

/// A process that was never scored has no risk.
pub proof fn law_unknown_process_has_no_risk(m: ScorerModel, pid: u32, decays: Seq<u32>)
    requires
        position(m.processes, pid) is None,
    ensures
        decayed_risk(entries_of(m.processes, pid), decays) == 0,
{
}

/// The risk of a detection counts for its process and for the machine, as the newest, with
/// the weight of its kind, of its severity and its confidence; other processes keep what
/// they had.
pub proof fn law_detections_count(
    m: ScorerModel,
    pid: u32,
    d: DetectionModel,
    severity: AlertSeverity,
    now: u64,
    other: u32,
)
    ensures
        ({
            let after = scored(m, pid, d, severity, now);
            let e = RiskEntry { score: detection_score(d, severity), timestamp: now };
            &&& entries_of(after.processes, pid).last() == e
            &&& after.endpoint.last() == e
            &&& entries_of(m.processes, pid).len() < MAX_ENTRIES ==> entries_of(
                after.processes,
                pid,
            ) == entries_of(m.processes, pid).push(e)
            &&& m.endpoint.len() < MAX_ENDPOINT_ENTRIES ==> after.endpoint == m.endpoint.push(e)
            &&& other != pid ==> entries_of(after.processes, other) == entries_of(
                m.processes,
                other,
            )
        }),
{
    let after = scored(m, pid, d, severity, now).processes;
    lemma_first_index(m.processes, of_process(pid));
    lemma_first_index(m.processes, of_process(other));
    lemma_first_index(after, of_process(pid));
    lemma_first_index(after, of_process(other));
    match position(m.processes, pid) {
        Some(i) => {
            assert forall|j: int| 0 <= j < m.processes.len() implies (#[trigger] after[j]).pid
                == m.processes[j].pid by {}
            assert forall|j: int| 0 <= j < i implies !of_process(pid)(#[trigger] after[j]) by {
                assert(!of_process(pid)(m.processes[j]));
            }
            lemma_first_index_is(after, of_process(pid), i);
        },
        None => {
            let n = m.processes.len() as int;
            assert forall|j: int| 0 <= j < n implies !of_process(pid)(#[trigger] after[j]) by {
                assert(!of_process(pid)(m.processes[j]));
            }
            lemma_first_index_is(after, of_process(pid), n);
        },
    }
    if other != pid {
        match position(m.processes, other) {
            Some(k) => {
                assert forall|j: int| 0 <= j < k implies !of_process(other)(#[trigger] after[j]) by {
                    assert(!of_process(other)(m.processes[j]));
                }
                assert(of_process(other)(m.processes[k]));
                lemma_first_index_is(after, of_process(other), k);
            },
            None => {
                if position(after, other) is Some {
                    let k = position(after, other)->0;
                    if k < m.processes.len() {
                        assert(!of_process(other)(m.processes[k]));
                    }
                }
            },
        }
    }
}

/// What a detection weighs: a kind that does more harm weighs more, and so does what is
/// more severe and what is surer.
pub proof fn law_scores_follow_the_harm(
    d: DetectionModel,
    surer: DetectionModel,
    severity: AlertSeverity,
)
    requires
        d.confidence <= 1_000_000,
        surer.confidence <= 1_000_000,
        d.confidence <= surer.confidence,
        d.detection_type == surer.detection_type,
    ensures
        detection_score(d, severity) <= detection_score(surer, severity),
        detection_score(d, severity) == kind_weight(d.detection_type) * severity_weight(severity)
            * d.confidence,
        kind_weight(DetectionType::Ransomware) > kind_weight(DetectionType::Honeyfile),
        kind_weight(DetectionType::Honeyfile) > kind_weight(DetectionType::Malware),
        kind_weight(DetectionType::Malware) == kind_weight(DetectionType::DriverThreat),
        kind_weight(DetectionType::Malware) > kind_weight(DetectionType::MemoryThreat),
        kind_weight(DetectionType::MemoryThreat) > kind_weight(DetectionType::ThreatIntel),
        kind_weight(DetectionType::ThreatIntel) == kind_weight(DetectionType::Yara),
        kind_weight(DetectionType::ThreatIntel) == kind_weight(DetectionType::Ioc),
        kind_weight(DetectionType::ThreatIntel) == kind_weight(DetectionType::WmiPersistence),
        kind_weight(DetectionType::ThreatIntel) > kind_weight(DetectionType::Behavioral),
        kind_weight(DetectionType::Behavioral) == kind_weight(DetectionType::Sigma),
        kind_weight(DetectionType::Behavioral) > kind_weight(DetectionType::UsbThreat),
        kind_weight(DetectionType::UsbThreat) > kind_weight(DetectionType::Entropy),
        kind_weight(d.detection_type) <= kind_weight(DetectionType::Ransomware),
        kind_weight(DetectionType::Ransomware) == 10,
{
    let k = kind_weight(d.detection_type) as int;
    let w = severity_weight(severity) as int;
    let a = d.confidence as int;
    let b = surer.confidence as int;
    assert(1 <= k <= 10);
    assert(0 <= w <= 1_000_000);
    assert(0 <= k * w <= 10_000_000) by (nonlinear_arith)
        requires
            1 <= k <= 10,
            0 <= w <= 1_000_000,
    ;
    let kw = k * w;
    assert(0 <= kw * a <= kw * b <= 10_000_000 * 1_000_000) by (nonlinear_arith)
        requires
            0 <= kw <= 10_000_000,
            0 <= a <= b <= 1_000_000,
    ;
}

/// What is left of some risks together is ten times the sum of what is left of each, in
/// points, and at most a hundred points. A risk that is whole counts whole.
pub proof fn law_risks_add_up(entries: Seq<RiskEntry>, decays: Seq<u32>, e: RiskEntry)
    ensures
        left_over(entries, decays, entries.len()) < 100_000_000 * 100_000_000_000 ==> {
            let risk = decayed_risk(entries, decays);
            &&& risk * 100_000_000_000 <= left_over(entries, decays, entries.len())
            &&& left_over(entries, decays, entries.len()) < (risk + 1) * 100_000_000_000
        },
        left_over(entries, decays, entries.len()) >= 100_000_000 * 100_000_000_000 ==> decayed_risk(
            entries,
            decays,
        ) == 100_000_000,
        decays.len() <= entries.len() ==> left_over(
            entries.push(e),
            decays,
            entries.push(e).len(),
        ) == left_over(entries, decays, entries.len()) + e.score * 1_000_000,
        decays.len() == entries.len() + 1 ==> left_over(
            entries.push(e),
            decays,
            entries.push(e).len(),
        ) == left_over(entries, decays, entries.len()) + e.score * decays.last(),
{
    let n = entries.len();
    let more = entries.push(e);
    lemma_left_over_front(entries, more, decays, n);
    assert(more[n as int] == e);
    let s = e.score as int;
    let d = decay(decays, n as int) as int;
    assert(0 <= s * d) by (nonlinear_arith)
        requires
            0 <= s,
            0 <= d,
    ;
}

proof fn lemma_left_over_front(
    a: Seq<RiskEntry>,
    b: Seq<RiskEntry>,
    decays: Seq<u32>,
    n: nat,
)
    requires
        n <= a.len(),
        n <= b.len(),
        forall|i: int| 0 <= i < n ==> #[trigger] a[i] == b[i],
    ensures
        left_over(a, decays, n) == left_over(b, decays, n),
    decreases n,
{
    if n > 0 {
        lemma_left_over_front(a, b, decays, (n - 1) as nat);
        assert(a[n - 1] == b[n - 1]);
    }
}

/// What is forgotten of the machine's risks is what is as old as risks may get, and
/// nothing else.
pub proof fn law_old_risks_are_forgotten(m: ScorerModel, now: u64, e: RiskEntry)
    ensures
        cleaned(m, now).endpoint.contains(e) <==> m.endpoint.contains(e) && now - e.timestamp
            < RISK_LIFETIME_MS,
{
    let p = recent(now);
    let left = m.endpoint.filter(p);
    lemma_filter_members(m.endpoint, p);
    if left.contains(e) {
        let i = choose|i: int| 0 <= i < left.len() && left[i] == e;
        assert(m.endpoint.contains(left[i]) && p(left[i]));
    }
    if m.endpoint.contains(e) && now - e.timestamp < RISK_LIFETIME_MS {
        let i = choose|i: int| 0 <= i < m.endpoint.len() && m.endpoint[i] == e;
        assert(p(m.endpoint[i]));
    }
}

} // verus!
