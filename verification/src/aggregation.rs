//! Alerts that repeat one another are held back.
use vstd::prelude::*;

use crate::alert::{alert_view, alerts_view, fingerprint, Alert, AlertModel};
use crate::collect::{
    first_index, lemma_filter_map, lemma_filter_members, lemma_first_index, lemma_first_index_map,
    position_where, retain,
};
use crate::text::same;

verus! {

/// How many repetitions are held back.
pub const MAX_SUPPRESSION: u32 = 100;

/// How many alerts it takes for a summary.
pub const MIN_COUNT: u32 = 2;

/// An alert and its repetitions.
pub struct AggregationEntry {
    /// What the alerts have in common.
    pub fingerprint: String,
    /// The first of them.
    pub alert: Alert,
    /// How many there were.
    pub count: u32,
    /// When the first came, in milliseconds.
    pub first_seen: u64,
    /// When the last came, in milliseconds.
    pub last_seen: u64,
}

/// What is known of an alert and its repetitions.
#[verifier::ext_equal]
pub struct WindowModel {
    pub fingerprint: Seq<char>,
    pub alert: AlertModel,
    pub count: u32,
    pub first_seen: u64,
    pub last_seen: u64,
}

impl View for AggregationEntry {
    type V = WindowModel;

    open spec fn view(&self) -> WindowModel {
        WindowModel {
            fingerprint: self.fingerprint@,
            alert: self.alert@,
            count: self.count,
            first_seen: self.first_seen,
            last_seen: self.last_seen,
        }
    }
}

/// What is known of an entry.
pub open spec fn of_entry() -> spec_fn(AggregationEntry) -> WindowModel {
    |e: AggregationEntry| e@
}

/// What is known of some entries.
pub open spec fn windows_view(windows: Seq<AggregationEntry>) -> Seq<WindowModel> {
    windows.map_values(of_entry())
}

/// Whether an entry is of a fingerprint.
pub open spec fn with_fingerprint(print: Seq<char>) -> spec_fn(WindowModel) -> bool {
    |w: WindowModel| w.fingerprint == print
}

/// Where the entry of a fingerprint stands.
pub open spec fn position(windows: Seq<WindowModel>, print: Seq<char>) -> Option<int> {
    first_index(windows, with_fingerprint(print))
}

/// Whether an entry is not over yet: less time than the window has passed since the
/// first alert.
pub open spec fn open_at(now: u64, window_seconds: u64) -> spec_fn(WindowModel) -> bool {
    |w: WindowModel| now - w.first_seen < window_seconds * 1000 && !(now < w.first_seen && window_seconds == 0)
}

fn is_open_at(e: &AggregationEntry, now: u64, window_seconds: u64) -> (r: bool)
    ensures
        r == open_at(now, window_seconds)(e@),
{
    let age: u64 = if now >= e.first_seen {
        now - e.first_seen
    } else {
        0
    };
    (age as u128) < window_seconds as u128 * 1000
}

/// An entry that was repeated.
pub open spec fn repeated(w: WindowModel, now: u64) -> WindowModel {
    WindowModel { count: (w.count + 1) as u32, last_seen: now, ..w }
}

/// An alert that stands for its repetitions, with how many these were: they did not
/// go out themselves, the first did.
pub open spec fn summed_up(w: WindowModel) -> AlertModel {
    AlertModel { suppression_count: (w.count - 1) as u32, ..w.alert }
}

/// What is known after an alert.
pub open spec fn after_alert(
    windows: Seq<WindowModel>,
    window_seconds: u64,
    alert: AlertModel,
    now: u64,
) -> Seq<WindowModel> {
    let open = windows.filter(open_at(now, window_seconds));
    match position(open, fingerprint(alert)) {
        Some(i) => if open[i].count >= MAX_SUPPRESSION {
            open.remove(i)
        } else {
            open.update(i, repeated(open[i], now))
        },
        None => open.push(
            WindowModel {
                fingerprint: fingerprint(alert),
                alert,
                count: 1,
                first_seen: now,
                last_seen: now,
            },
        ),
    }
}

/// What an alert comes to: the first goes out, repetitions are held back, and once
/// too many were, one alert goes out for all of them.
pub open spec fn emitted(
    windows: Seq<WindowModel>,
    window_seconds: u64,
    alert: AlertModel,
    now: u64,
) -> Option<AlertModel> {
    let open = windows.filter(open_at(now, window_seconds));
    match position(open, fingerprint(alert)) {
        Some(i) => if open[i].count >= MAX_SUPPRESSION {
            Some(summed_up(repeated(open[i], now)))
        } else {
            None
        },
        None => Some(alert),
    }
}

/// The alerts that stand for repetitions that were held back, among the first `n`
/// entries.
pub open spec fn pending(windows: Seq<WindowModel>, n: nat) -> Seq<AlertModel>
    decreases n,
{
    if n == 0 {
        Seq::empty()
    } else {
        let before = pending(windows, (n - 1) as nat);
        if windows[n - 1].count >= MIN_COUNT {
            before.push(summed_up(windows[n - 1]))
        } else {
            before
        }
    }
}

/// Whether the counts have not run over.
pub open spec fn counts_fit(windows: Seq<WindowModel>) -> bool {
    forall|i: int| 0 <= i < windows.len() ==> (#[trigger] windows[i]).count <= MAX_SUPPRESSION
}

/// Holds back alerts that repeat one another.
pub struct AlertAggregator {
    /// The alerts of late.
    pub windows: Vec<AggregationEntry>,
    /// For how many seconds repetitions are held back.
    pub window_seconds: u64,
}

impl View for AlertAggregator {
    type V = Seq<WindowModel>;

    open spec fn view(&self) -> Seq<WindowModel> {
        windows_view(self.windows@)
    }
}

impl Default for AlertAggregator {
    fn default() -> (r: AlertAggregator)
        ensures
            r.wf(),
            r@ == Seq::<WindowModel>::empty(),
            r.window_seconds == 300,
    {
        AlertAggregator::new()
    }
}

impl AlertAggregator {
    /// Whether the counts have not run over.
    pub open spec fn wf(&self) -> bool {
        counts_fit(self@)
    }

    /// An aggregator that holds back repetitions for five minutes.
    pub fn new() -> (r: AlertAggregator)
        ensures
            r.wf(),
            r@ == Seq::<WindowModel>::empty(),
            r.window_seconds == 300,
    {
        AlertAggregator::with_window(300)
    }

    /// An aggregator that holds back repetitions for some seconds.
    pub fn with_window(window_seconds: u64) -> (r: AlertAggregator)
        ensures
            r.wf(),
            r@ == Seq::<WindowModel>::empty(),
            r.window_seconds == window_seconds,
    {
        let r = AlertAggregator { windows: Vec::new(), window_seconds };
        assert(windows_view(r.windows@) =~= Seq::empty());
        r
    }

    fn index_of(&self, print: &str) -> (r: Option<usize>)
        ensures
            match r {
                Some(i) => position(self@, print@) == Some(i as int) && i < self.windows@.len(),
                None => position(self@, print@) is None,
            },
    {
        let ghost q = with_fingerprint(print@);
        let ghost p = |e: AggregationEntry| q(e@);
        let meets = |e: &AggregationEntry| -> (b: bool)
            ensures
                b == q(e@),
            { same(e.fingerprint.as_str(), print) };
        let r = position_where(&self.windows, meets, Ghost(p));
        proof {
            lemma_first_index_map(self.windows@, of_entry(), p, q);
        }
        r
    }

    fn cleanup(&mut self, now: u64)
        requires
            old(self).wf(),
        ensures
            final(self).wf(),
            final(self).window_seconds == old(self).window_seconds,
            final(self)@ == old(self)@.filter(open_at(now, old(self).window_seconds)),
    {
        let window_seconds: u64 = self.window_seconds;
        let ghost before = self.windows@;
        let ghost q = open_at(now, window_seconds);
        let ghost p = |e: AggregationEntry| q(e@);
        let keep = |e: &AggregationEntry| -> (b: bool)
            ensures
                b == q(e@),
            { is_open_at(e, now, window_seconds) };
        retain(&mut self.windows, keep, Ghost(p));
        proof {
            lemma_filter_map(before, of_entry(), p, q);
            lemma_kept_counts(old(self)@, q);
        }
    }

    /// Takes an alert, and gives what is to go out, if anything.
    pub fn process_at(&mut self, alert: Alert, now: u64) -> (r: Option<Alert>)
        requires
            old(self).wf(),
        ensures
            final(self).wf(),
            final(self).window_seconds == old(self).window_seconds,
            final(self)@ == after_alert(old(self)@, old(self).window_seconds, alert@, now),
            alert_view(r) == emitted(old(self)@, old(self).window_seconds, alert@, now),
    {
        let print = alert.fingerprint();
        self.cleanup(now);
        let ghost open = self@;
        match self.index_of(print.as_str()) {
            Some(i) => {
                let ghost list = self.windows@;
                assert(open[i as int] == self.windows@[i as int]@);
                let mut entry = self.windows.remove(i);
                let full = entry.count >= MAX_SUPPRESSION;
                entry.count = entry.count + 1;
                entry.last_seen = now;
                assert(entry@ == repeated(open[i as int], now));
                if full {
                    proof {
                        assert(self@ =~= open.remove(i as int));
                        lemma_removed_counts(open, i as int);
                    }
                    let mut summed = entry.alert.clone();
                    summed.suppression_count = entry.count - 1;
                    return Some(summed);
                }
                let ghost model = entry@;
                self.windows.insert(i, entry);
                assert(self@ =~= open.update(i as int, model));
                None
            },
            None => {
                let entry = AggregationEntry {
                    fingerprint: print,
                    alert: alert.clone(),
                    count: 1,
                    first_seen: now,
                    last_seen: now,
                };
                let ghost model = entry@;
                self.windows.push(entry);
                assert(self@ =~= open.push(model));
                Some(alert)
            },
        }
    }

    /// Takes an alert now, and gives what is to go out, if anything.
    pub fn process(&mut self, alert: Alert) -> (r: Option<Alert>)
        requires
            old(self).wf(),
        ensures
            final(self).wf(),
            final(self).window_seconds == old(self).window_seconds,
            exists|now: u64|
                final(self)@ == #[trigger] after_alert(
                    old(self)@,
                    old(self).window_seconds,
                    alert@,
                    now,
                ) && alert_view(r) == emitted(old(self)@, old(self).window_seconds, alert@, now),
    {
        let now: u64 = crate::telemetry::current_timestamp();
        self.process_at(alert, now)
    }

    /// Gives an alert for each that was repeated, and forgets all.
    pub fn flush(&mut self) -> (r: Vec<Alert>)
        ensures
            final(self).wf(),
            final(self).window_seconds == old(self).window_seconds,
            final(self)@ == Seq::<WindowModel>::empty(),
            alerts_view(r@) == pending(old(self)@, old(self)@.len()),
    {
        let ghost all = self@;
        let mut r: Vec<Alert> = Vec::new();
        let mut i: usize = 0;
        assert(alerts_view(r@) =~= Seq::empty());
        while i < self.windows.len()
            invariant
                i <= self.windows@.len(),
                all == windows_view(self.windows@),
                self.window_seconds == old(self).window_seconds,
                alerts_view(r@) == pending(all, i as nat),
            decreases self.windows@.len() - i,
        {
            assert(all[i as int] == self.windows@[i as int]@);
            if self.windows[i].count >= MIN_COUNT {
                let ghost before = alerts_view(r@);
                let mut summed = self.windows[i].alert.clone();
                summed.suppression_count = self.windows[i].count - 1;
                let ghost model = summed@;
                assert(model == summed_up(all[i as int]));
                r.push(summed);
                assert(alerts_view(r@) =~= before.push(model));
            }
            i += 1;
        }
        self.windows = Vec::new();
        assert(windows_view(self.windows@) =~= Seq::empty());
        r
    }
}

proof fn lemma_kept_counts(windows: Seq<WindowModel>, q: spec_fn(WindowModel) -> bool)
    requires
        counts_fit(windows),
    ensures
        counts_fit(windows.filter(q)),
{
    lemma_filter_members(windows, q);
    let kept = windows.filter(q);
    assert forall|i: int| 0 <= i < kept.len() implies (#[trigger] kept[i]).count
        <= MAX_SUPPRESSION by {
        assert(windows.contains(kept[i]));
        let k = choose|k: int| 0 <= k < windows.len() && windows[k] == kept[i];
        assert(windows[k].count <= MAX_SUPPRESSION);
    }
}

proof fn lemma_removed_counts(windows: Seq<WindowModel>, i: int)
    requires
        counts_fit(windows),
        0 <= i < windows.len(),
    ensures
        counts_fit(windows.remove(i)),
{
    let left = windows.remove(i);
    assert forall|k: int| 0 <= k < left.len() implies (#[trigger] left[k]).count
        <= MAX_SUPPRESSION by {
        let j = if k < i {
            k
        } else {
            k + 1
        };
        assert(left[k] == windows[j]);
    }
}

/// An alert that repeats none of the window goes out as it is.
pub proof fn law_first_alert_goes_out(
    windows: Seq<WindowModel>,
    window_seconds: u64,
    alert: AlertModel,
    now: u64,
)
    requires
        position(windows.filter(open_at(now, window_seconds)), fingerprint(alert)) is None,
    ensures
        emitted(windows, window_seconds, alert, now) == Some(alert),
{
}

/// An alert that comes again within the window of its first coming is held back,
/// where there was no other like it before.
pub proof fn law_repetition_is_held_back(
    windows: Seq<WindowModel>,
    window_seconds: u64,
    first: AlertModel,
    second: AlertModel,
    now: u64,
    later: u64,
)
    requires
        fingerprint(first) == fingerprint(second),
        position(windows.filter(open_at(now, window_seconds)), fingerprint(first)) is None,
        now <= later < now + window_seconds * 1000,
    ensures
        emitted(after_alert(windows, window_seconds, first, now), window_seconds, second, later) is None,
{
    let open = windows.filter(open_at(now, window_seconds));
    let print = fingerprint(first);
    let new = WindowModel {
        fingerprint: print,
        alert: first,
        count: 1,
        first_seen: now,
        last_seen: now,
    };
    let after = after_alert(windows, window_seconds, first, now);
    assert(after == open.push(new));
    let q = open_at(later, window_seconds);
    let kept = after.filter(q);
    lemma_filter_members(after, q);
    assert(q(new));
    assert(after[open.len() as int] == new);
    assert(kept.contains(new));
    lemma_first_index(kept, with_fingerprint(print));
    lemma_first_index(open, with_fingerprint(print));
    match position(kept, print) {
        Some(i) => {
            assert(with_fingerprint(print)(kept[i]));
            assert(after.contains(kept[i]));
            let k = choose|k: int| 0 <= k < after.len() && after[k] == kept[i];
            if k < open.len() {
                assert(after[k] == open[k]);
                assert(!with_fingerprint(print)(open[k]));
            }
            assert(kept[i] == new);
        },
        None => {
            let k = choose|k: int| 0 <= k < kept.len() && kept[k] == new;
            assert(!with_fingerprint(print)(kept[k]));
        },
    }
}

/// Whatever goes out has the fingerprint of the alert that came, where the entries
/// are filed under the fingerprints of their alerts.
pub proof fn law_what_goes_out_is_alike(
    windows: Seq<WindowModel>,
    window_seconds: u64,
    alert: AlertModel,
    now: u64,
)
    requires
        forall|i: int|
            0 <= i < windows.len() ==> (#[trigger] windows[i]).fingerprint == fingerprint(
                windows[i].alert,
            ),
    ensures
        emitted(windows, window_seconds, alert, now) matches Some(out) ==> fingerprint(out)
            == fingerprint(alert),
{
    let q = open_at(now, window_seconds);
    let open = windows.filter(q);
    lemma_filter_members(windows, q);
    lemma_first_index(open, with_fingerprint(fingerprint(alert)));
    if let Some(i) = position(open, fingerprint(alert)) {
        assert(windows.contains(open[i]));
        let k = choose|k: int| 0 <= k < windows.len() && windows[k] == open[i];
        assert(windows[k].fingerprint == fingerprint(windows[k].alert));
        assert(with_fingerprint(fingerprint(alert))(open[i]));
    }
}

/// What is known after the first `n` of some alerts, each at its time, where nothing
/// was known before.
pub open spec fn after_alerts(
    window_seconds: u64,
    alerts: Seq<AlertModel>,
    times: Seq<u64>,
    n: nat,
) -> Seq<WindowModel>
    decreases n,
{
    if n == 0 {
        Seq::empty()
    } else {
        after_alert(
            after_alerts(window_seconds, alerts, times, (n - 1) as nat),
            window_seconds,
            alerts[n - 1],
            times[n - 1],
        )
    }
}

/// Whether alerts are alike and come within one window.
pub open spec fn come_together(
    window_seconds: u64,
    alerts: Seq<AlertModel>,
    times: Seq<u64>,
) -> bool {
    &&& alerts.len() == times.len()
    &&& forall|i: int|
        0 <= i < alerts.len() ==> fingerprint(#[trigger] alerts[i]) == fingerprint(alerts[0])
    &&& forall|i: int|
        0 <= i < times.len() ==> times[0] <= #[trigger] times[i] < times[0] + window_seconds * 1000
}

/// What is known after `n` alerts that come together: nothing where their number is
/// a multiple of one more than may be held back, and otherwise those since the last
/// such number.
pub open spec fn one_window(alerts: Seq<AlertModel>, times: Seq<u64>, n: nat) -> Seq<WindowModel> {
    let k = n as int % 101;
    if k == 0 {
        Seq::empty()
    } else {
        seq![
            WindowModel {
                fingerprint: fingerprint(alerts[0]),
                alert: alerts[n - k],
                count: k as u32,
                first_seen: times[n - k],
                last_seen: times[n - 1],
            },
        ]
    }
}

proof fn lemma_lone_window(w: WindowModel, q: spec_fn(WindowModel) -> bool, print: Seq<char>)
    requires
        q(w),
        w.fingerprint == print,
    ensures
        seq![w].filter(q) == seq![w],
        position(seq![w], print) == Some(0int),
{
    reveal(Seq::filter);
    let s = seq![w];
    assert(s.drop_last() =~= Seq::empty());
    assert(s.drop_last().filter(q) =~= Seq::empty());
    assert(s.filter(q) =~= s);
    lemma_first_index(s, with_fingerprint(print));
    assert(with_fingerprint(print)(s[0]));
}

proof fn lemma_no_window(q: spec_fn(WindowModel) -> bool, print: Seq<char>)
    ensures
        Seq::<WindowModel>::empty().filter(q) == Seq::<WindowModel>::empty(),
        position(Seq::empty(), print) is None,
{
    reveal(Seq::filter);
    lemma_first_index(Seq::<WindowModel>::empty(), with_fingerprint(print));
}

proof fn lemma_window_opens(window_seconds: u64, alert: AlertModel, now: u64)
    ensures
        after_alert(Seq::empty(), window_seconds, alert, now) == seq![
            WindowModel {
                fingerprint: fingerprint(alert),
                alert,
                count: 1,
                first_seen: now,
                last_seen: now,
            },
        ],
{
    lemma_no_window(open_at(now, window_seconds), fingerprint(alert));
    assert(after_alert(Seq::empty(), window_seconds, alert, now) =~= seq![
        WindowModel {
            fingerprint: fingerprint(alert),
            alert,
            count: 1,
            first_seen: now,
            last_seen: now,
        },
    ]);
}

proof fn lemma_window_goes_on(w: WindowModel, window_seconds: u64, alert: AlertModel, now: u64)
    requires
        w.fingerprint == fingerprint(alert),
        open_at(now, window_seconds)(w),
    ensures
        after_alert(seq![w], window_seconds, alert, now) == if w.count >= MAX_SUPPRESSION {
            Seq::empty()
        } else {
            seq![repeated(w, now)]
        },
{
    lemma_lone_window(w, open_at(now, window_seconds), fingerprint(alert));
    let s = seq![w];
    assert(s.len() == 1);
    assert(s.remove(0).len() == 0);
    assert(s.remove(0) =~= Seq::empty());
    assert(s.update(0, repeated(w, now)) =~= seq![repeated(w, now)]);
}

proof fn lemma_one_window(window_seconds: u64, alerts: Seq<AlertModel>, times: Seq<u64>, n: nat)
    requires
        come_together(window_seconds, alerts, times),
        n <= alerts.len(),
    ensures
        after_alerts(window_seconds, alerts, times, n) == one_window(alerts, times, n),
    decreases n,
{
    if n > 0 {
        let i = n - 1;
        lemma_one_window(window_seconds, alerts, times, i as nat);
        assert(fingerprint(alerts[i]) == fingerprint(alerts[0]));
        if i % 101 == 0 {
            lemma_window_opens(window_seconds, alerts[i], times[i]);
            assert(n as int % 101 == 1);
        } else {
            let start = i - i % 101;
            assert(times[start] >= times[0] && times[i] < times[0] + window_seconds * 1000);
            let w = one_window(alerts, times, i as nat)[0];
            lemma_window_goes_on(w, window_seconds, alerts[i], times[i]);
            if i % 101 == 100 {
                assert(n as int % 101 == 0);
            } else {
                assert(n as int % 101 == i % 101 + 1);
                assert(n - n as int % 101 == start);
            }
        }
    }
}

/// Of alerts that are alike and come within one window, the first goes out as it is,
/// the next ninety-nine are held back, and in place of the one behind them goes out
/// the first again, with the hundred that it stands for. Then it begins anew.
pub proof fn law_alike_alerts_of_one_window(
    window_seconds: u64,
    alerts: Seq<AlertModel>,
    times: Seq<u64>,
    i: int,
)
    requires
        come_together(window_seconds, alerts, times),
        0 <= i < alerts.len(),
    ensures
        emitted(
            after_alerts(window_seconds, alerts, times, i as nat),
            window_seconds,
            alerts[i],
            times[i],
        ) == if i % 101 == 0 {
            Some(alerts[i])
        } else if i % 101 < 100 {
            None
        } else {
            Some(AlertModel { suppression_count: 100, ..alerts[i - 100] })
        },
{
    lemma_one_window(window_seconds, alerts, times, i as nat);
    let before = one_window(alerts, times, i as nat);
    let q = open_at(times[i], window_seconds);
    let print = fingerprint(alerts[0]);
    assert(fingerprint(alerts[i]) == print);
    if i % 101 == 0 {
        lemma_no_window(q, print);
    } else {
        let start = i - i % 101;
        assert(times[start] >= times[0] && times[i] < times[0] + window_seconds * 1000);
        lemma_lone_window(before[0], q, print);
    }
}

/// An alert stands for repetitions that were held back exactly where it came as often as
/// counts, and says how many were.
pub proof fn law_repetitions_are_summed_up(windows: Seq<WindowModel>, n: nat, a: AlertModel)
    requires
        n <= windows.len(),
    ensures
        pending(windows, n).contains(a) <==> exists|i: int|
            0 <= i < n && (#[trigger] windows[i]).count >= MIN_COUNT && a == (AlertModel {
                suppression_count: (windows[i].count - 1) as u32,
                ..windows[i].alert
            }),
    decreases n,
{
    if n > 0 {
        law_repetitions_are_summed_up(windows, (n - 1) as nat, a);
        let before = pending(windows, (n - 1) as nat);
        let after = pending(windows, n);
        if before.contains(a) {
            let k = choose|k: int| 0 <= k < before.len() && before[k] == a;
            assert(after[k] == a);
        }
        if windows[n - 1].count >= MIN_COUNT {
            assert(after.last() == summed_up(windows[n - 1]));
            if after.contains(a) {
                let k = choose|k: int| 0 <= k < after.len() && after[k] == a;
                if k < before.len() {
                    assert(before[k] == a);
                }
            }
        }
    }
}

} // verus!
