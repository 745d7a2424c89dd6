//! Statistics over the last values of a series, and over the hours of a day.
//!
//! Values are whole numbers of thousandths, and may be negative.
use vstd::prelude::*;

use std::collections::VecDeque;

use crate::wide::{at_most, difference, multiple, product, Wide};

verus! {

/// More values than any memory holds: their number is still a signed number of
/// thousandths.
pub const MAX_SERIES: u64 = 9_223_372_036_854_775;

/// The sum of values.
pub open spec fn total(values: Seq<i32>) -> int
    decreases values.len(),
{
    if values.len() == 0 {
        0
    } else {
        total(values.drop_last()) + values.last()
    }
}

/// The sum of the squares of values.
pub open spec fn total_squares(values: Seq<i32>) -> int
    decreases values.len(),
{
    if values.len() == 0 {
        0
    } else {
        total_squares(values.drop_last()) + values.last() * values.last()
    }
}

/// The square of the number of values, times their variance.
pub open spec fn spread(values: Seq<i32>) -> int {
    values.len() * total_squares(values) - total(values) * total(values)
}

/// The sum of the squares of the distances of values from `x`.
spec fn distances(values: Seq<i32>, x: int) -> int
    decreases values.len(),
{
    if values.len() == 0 {
        0
    } else {
        distances(values.drop_last(), x) + (values.last() - x) * (values.last() - x)
    }
}

proof fn lemma_distances(values: Seq<i32>, x: int)
    ensures
        distances(values, x) >= 0,
        distances(values, x) == total_squares(values) - 2 * (x * total(values)) + values.len() * (x
            * x),
    decreases values.len(),
{
    if values.len() > 0 {
        let rest = values.drop_last();
        let v = values.last() as int;
        lemma_distances(rest, x);
        assert((v - x) * (v - x) >= 0) by (nonlinear_arith);
        assert((v - x) * (v - x) == v * v - 2 * (x * v) + x * x) by (nonlinear_arith);
        let s = total(rest);
        assert(x * (s + v) == x * s + x * v) by (nonlinear_arith);
        let n = rest.len() as int;
        assert((n + 1) * (x * x) == n * (x * x) + x * x) by (nonlinear_arith);
        assert(total(values) == s + v);
        assert(total_squares(values) == total_squares(rest) + v * v);
        assert(values.len() == n + 1);
        assert(x * total(values) == x * s + x * v);
        assert(values.len() * (x * x) == n * (x * x) + x * x);
    } else {
        assert(x * 0 == 0) by (nonlinear_arith);
        assert(0 * (x * x) == 0) by (nonlinear_arith);
    }
}

/// The spread of values is not negative.
pub proof fn lemma_spread(values: Seq<i32>)
    ensures
        spread(values) >= 0,
    decreases values.len(),
{
    if values.len() > 0 {
        lemma_spread(values.drop_last());
        lemma_distances(values.drop_last(), values.last() as int);
        lemma_spread_grows(values);
    } else {
        assert(0 * total_squares(values) == 0);
    }
}

/// The spread of values with one more.
proof fn lemma_spread_grows(values: Seq<i32>)
    requires
        values.len() > 0,
    ensures
        spread(values) == spread(values.drop_last()) + distances(
            values.drop_last(),
            values.last() as int,
        ),
{
    let rest = values.drop_last();
    let x = values.last() as int;
    let n = rest.len() as int;
    let q = total_squares(rest);
    let s = total(rest);
    lemma_distances(rest, x);
    assert((n + 1) * (q + x * x) - (s + x) * (s + x) == (n * q - s * s) + (q - 2 * (x * s) + n * (x
        * x))) by (nonlinear_arith);
}

proof fn lemma_no_distance(values: Seq<i32>, x: int)
    requires
        distances(values, x) == 0,
    ensures
        forall|i: int| 0 <= i < values.len() ==> values[i] == x,
    decreases values.len(),
{
    if values.len() > 0 {
        let rest = values.drop_last();
        let d = values.last() - x;
        lemma_distances(rest, x);
        assert(d * d >= 0) by (nonlinear_arith);
        assert(d == 0) by (nonlinear_arith)
            requires
                d * d == 0,
        ;
        lemma_no_distance(rest, x);
        assert forall|i: int| 0 <= i < values.len() implies values[i] == x by {
            if i < rest.len() {
                assert(rest[i] == values[i]);
            }
        }
    }
}

proof fn lemma_equal_values(values: Seq<i32>, c: int, x: int)
    requires
        forall|i: int| 0 <= i < values.len() ==> values[i] == c,
    ensures
        distances(values, x) == values.len() * ((c - x) * (c - x)),
        spread(values) == 0,
    decreases values.len(),
{
    if values.len() > 0 {
        let rest = values.drop_last();
        assert forall|i: int| 0 <= i < rest.len() implies rest[i] == c by {
            assert(rest[i] == values[i]);
        }
        lemma_equal_values(rest, c, x);
        lemma_equal_values(rest, c, c);
        lemma_spread_grows(values);
        let n = rest.len() as int;
        let d = (c - x) * (c - x);
        assert((n + 1) * d == n * d + d) by (nonlinear_arith);
        assert(n * ((c - c) * (c - c)) == 0) by (nonlinear_arith);
    } else {
        assert(0 * ((c - x) * (c - x)) == 0) by (nonlinear_arith);
        lemma_spread(values);
    }
}

/// Values that are not all equal have a spread that grows with their number.
proof fn lemma_spread_gap(values: Seq<i32>)
    ensures
        spread(values) == 0 ==> forall|i: int|
            0 <= i < values.len() ==> #[trigger] values[i] == values[0],
        spread(values) > 0 ==> spread(values) >= values.len() - 1,
    decreases values.len(),
{
    if values.len() > 0 {
        let rest = values.drop_last();
        let x = values.last() as int;
        lemma_spread_gap(rest);
        lemma_spread_grows(values);
        lemma_spread(rest);
        lemma_distances(rest, x);
        if spread(rest) == 0 {
            if rest.len() > 0 {
                let c = rest[0] as int;
                assert forall|i: int| 0 <= i < rest.len() implies rest[i] == c by {
                    assert(rest[i] == rest[0]);
                }
                lemma_equal_values(rest, c, x);
                let n = rest.len() as int;
                if c != x {
                    assert((c - x) * (c - x) >= 1) by (nonlinear_arith)
                        requires
                            c != x,
                    ;
                    let d = (c - x) * (c - x);
                    assert(n * d >= n) by (nonlinear_arith)
                        requires
                            d >= 1,
                            n >= 0,
                    ;
                    assert(distances(rest, x) == n * d);
                    assert(spread(values) >= n);
                } else {
                    assert(n * ((c - x) * (c - x)) == 0) by (nonlinear_arith)
                        requires
                            c == x,
                    ;
                    assert forall|i: int| 0 <= i < values.len() implies #[trigger] values[i]
                        == values[0] by {
                        if i < rest.len() {
                            assert(rest[i] == values[i]);
                        }
                        assert(values[0] == rest[0]);
                    }
                }
            }
        } else if distances(rest, x) == 0 {
            lemma_no_distance(rest, x);
            lemma_equal_values(rest, x, x);
        } else {
            assert(spread(values) >= rest.len() - 1 + 1);
        }
    }
}

/// Sums are bounded by the number of values.
proof fn lemma_bounds(values: Seq<i32>)
    ensures
        -(values.len() * 0x8000_0000) <= total(values) <= values.len() * 0x8000_0000,
        0 <= total_squares(values) <= values.len() * 0x4000_0000_0000_0000,
    decreases values.len(),
{
    if values.len() > 0 {
        lemma_bounds(values.drop_last());
        lemma_square(values.last());
    }
}

proof fn lemma_square(v: i32)
    ensures
        0 <= v * v <= 0x4000_0000_0000_0000,
{
    assert(0 <= v * v <= 0x4000_0000_0000_0000) by (nonlinear_arith)
        requires
            -0x8000_0000 <= v <= 0x7fff_ffff,
    ;
}

/// The sums without the first value.
proof fn lemma_drop_first(values: Seq<i32>)
    requires
        values.len() > 0,
    ensures
        total(values) == total(values.drop_first()) + values[0],
        total_squares(values) == total_squares(values.drop_first()) + values[0] * values[0],
    decreases values.len(),
{
    if values.len() == 1 {
        assert(values.drop_last() =~= Seq::<i32>::empty());
        assert(values.drop_first() =~= Seq::<i32>::empty());
    } else {
        let rest = values.drop_last();
        lemma_drop_first(rest);
        assert(values.drop_first().drop_last() =~= rest.drop_first());
    }
}

/// Whether `r` is the whole part of the square root of `n`.
pub open spec fn is_root(r: int, n: int) -> bool {
    0 <= r && r * r <= n < (r + 1) * (r + 1)
}

/// The whole part of the square root of `n`.
pub open spec fn root(n: int) -> int {
    choose|r: int| is_root(r, n)
}

/// Numbers have one whole part of a square root.
proof fn lemma_root(r: int, n: int)
    requires
        is_root(r, n),
    ensures
        root(n) == r,
{
    let s = root(n);
    assert(is_root(s, n));
    if r < s {
        assert((r + 1) * (r + 1) <= s * s) by (nonlinear_arith)
            requires
                0 <= r < s,
        ;
    }
    if s < r {
        assert((s + 1) * (s + 1) <= r * r) by (nonlinear_arith)
            requires
                0 <= s < r,
        ;
    }
}

/// Two to the power of one hundred and twenty-six.
const ROOT_LIMIT: u128 = 0x4000_0000_0000_0000_0000_0000_0000_0000;

/// Two to the power of one hundred and twenty-seven.
const QUOTIENT_LIMIT: u128 = 0x8000_0000_0000_0000_0000_0000_0000_0000;

fn square_root(n: Wide) -> (r: u128)
    requires
        n.high < 0x1000_0000_0000_0000_0000_0000_0000_0000,
    ensures
        r == root(n@),
        is_root(r as int, n@),
{
    let mut low: u128 = 0;
    let mut high: u128 = ROOT_LIMIT;
    assert(0 * 0 <= n@ < ROOT_LIMIT * ROOT_LIMIT);
    while high - low > 1
        invariant
            low < high <= ROOT_LIMIT,
            low * low <= n@ < high * high,
        decreases high - low,
    {
        let middle: u128 = low + (high - low) / 2;
        if at_most(product(middle, middle), n) {
            low = middle;
        } else {
            high = middle;
        }
    }
    proof {
        assert(high == low + 1);
        lemma_root(low as int, n@);
    }
    low
}

/// The whole part of a quotient.
proof fn lemma_whole_part(q: int, a: int, d: int)
    requires
        0 < d,
        q * d <= a < (q + 1) * d,
    ensures
        q == a / d,
{
    assert(q == a / d) by (nonlinear_arith)
        requires
            0 < d,
            q * d <= a < (q + 1) * d,
    ;
}

fn quotient(a: Wide, d: u128) -> (r: u128)
    requires
        0 < d,
        a@ < QUOTIENT_LIMIT * d,
    ensures
        r == a@ / d as int,
        r < QUOTIENT_LIMIT,
{
    let mut low: u128 = 0;
    let mut high: u128 = QUOTIENT_LIMIT;
    assert(0 * d == 0) by (nonlinear_arith);
    while high - low > 1
        invariant
            low < high <= QUOTIENT_LIMIT,
            low * d <= a@ < high * d,
        decreases high - low,
    {
        let middle: u128 = low + (high - low) / 2;
        if at_most(product(middle, d), a) {
            low = middle;
        } else {
            high = middle;
        }
    }
    proof {
        lemma_whole_part(low as int, a@, d as int);
    }
    low
}

/// How much a number is above another.
fn gap(a: i128, b: i128) -> (r: u128)
    requires
        a >= b,
        b > i128::MIN,
    ensures
        r == a - b,
{
    if a >= 0 && b < 0 {
        a as u128 + (-b) as u128
    } else {
        (a - b) as u128
    }
}

/// The last values of a series, each with its time.
pub struct RollingStats {
    values: VecDeque<i32>,
    timestamps: VecDeque<u64>,
    max_size: usize,
    sum: i128,
    sum_sq: i128,
}

/// What statistics are kept of.
#[verifier::ext_equal]
pub struct RollingModel {
    pub values: Seq<i32>,
    pub timestamps: Seq<u64>,
    pub max_size: nat,
}

impl View for RollingStats {
    type V = RollingModel;

    closed spec fn view(&self) -> RollingModel {
        RollingModel {
            values: self.values@,
            timestamps: self.timestamps@,
            max_size: self.max_size as nat,
        }
    }
}

/// A series with one value more; the oldest goes where there is no room.
pub open spec fn with_value(m: RollingModel, value: i32, timestamp: u64) -> RollingModel {
    if m.values.len() >= m.max_size && m.values.len() > 0 {
        RollingModel {
            values: m.values.drop_first().push(value),
            timestamps: m.timestamps.drop_first().push(timestamp),
            max_size: m.max_size,
        }
    } else {
        RollingModel {
            values: m.values.push(value),
            timestamps: m.timestamps.push(timestamp),
            max_size: m.max_size,
        }
    }
}

/// An empty series.
pub open spec fn no_values(max_size: nat) -> RollingModel {
    RollingModel { values: Seq::empty(), timestamps: Seq::empty(), max_size }
}

/// A quotient, toward zero.
pub open spec fn toward_zero(a: int, b: int) -> int {
    if a >= 0 {
        a / b
    } else {
        -((-a) / b)
    }
}

/// The mean of values, in millionths and toward zero; zero where there are none.
pub open spec fn mean_of(values: Seq<i32>) -> int {
    if values.len() == 0 {
        0
    } else {
        toward_zero(total(values) * 1000, values.len() as int)
    }
}

/// The distance of a value from the mean, in standard deviations and in
/// millionths, toward zero; zero where all values are equal.
pub open spec fn standard_score(values: Seq<i32>, value: int) -> int {
    let from_mean = values.len() * value - total(values);
    if values.len() < 2 || spread(values) == 0 {
        0
    } else {
        toward_zero(from_mean * 1_000_000_000, root(spread(values) * 1_000_000))
    }
}

/// The values that are no older than a time.
pub open spec fn values_since(values: Seq<i32>, timestamps: Seq<u64>, cutoff: int, n: nat) -> Seq<
    i32,
>
    decreases n,
{
    if n == 0 {
        Seq::empty()
    } else if timestamps[n - 1] >= cutoff {
        values_since(values, timestamps, cutoff, (n - 1) as nat).push(values[n - 1])
    } else {
        values_since(values, timestamps, cutoff, (n - 1) as nat)
    }
}

impl RollingStats {
    /// Each value has a time, there are no more values than fit, and the running
    /// sums are those of the values.
    pub closed spec fn wf(&self) -> bool {
        &&& self.values@.len() == self.timestamps@.len()
        &&& self.values@.len() <= self.max_size || self.values@.len() <= 1
        &&& self.sum == total(self.values@)
        &&& self.sum_sq == total_squares(self.values@)
    }

    /// An empty series that keeps the last `max_size` values.
    pub fn new(max_size: usize) -> (r: RollingStats)
        ensures
            r.wf(),
            r@ == no_values(max_size as nat),
    {
        let r = RollingStats {
            values: VecDeque::new(),
            timestamps: VecDeque::new(),
            max_size,
            sum: 0,
            sum_sq: 0,
        };
        assert(r@ =~= no_values(max_size as nat));
        r
    }

    /// Each value has a time, and there are no more than fit.
    pub proof fn lemma_wf(&self)
        requires
            self.wf(),
        ensures
            self@.values.len() == self@.timestamps.len(),
            self@.values.len() <= self@.max_size || self@.values.len() <= 1,
    {
    }

    /// Adds a value. Where there is no room the oldest goes.
    pub fn add(&mut self, value: i32, timestamp: u64)
        requires
            old(self).wf(),
        ensures
            final(self).wf(),
            final(self)@ == with_value(old(self)@, value, timestamp),
    {
        let ghost before = self.values@;
        proof {
            lemma_bounds(before);
            if before.len() > 0 {
                lemma_drop_first(before);
                lemma_bounds(before.drop_first());
            }
        }
        let held: usize = self.values.len();
        if held >= self.max_size {
            if let Some(first) = self.values.pop_front() {
                self.timestamps.pop_front();
                assert(before[0] == first);
                let square: i128 = square_of(first);
                self.sum = self.sum - first as i128;
                self.sum_sq = self.sum_sq - square;
                assert(self.values@ =~= before.drop_first());
            }
        }
        let ghost middle = self.values@;
        assert(middle.len() <= held <= 0xffff_ffff_ffff_ffff);
        proof {
            lemma_bounds(middle);
            lemma_square(value);
        }
        self.values.push_back(value);
        self.timestamps.push_back(timestamp);
        assert(self.values@.drop_last() =~= middle);
        self.sum = self.sum + value as i128;
        self.sum_sq = self.sum_sq + square_of(value);
    }

    /// The mean, in millionths.
    pub fn mean(&self) -> (r: i64)
        requires
            self.wf(),
        ensures
            r == mean_of(self@.values),
    {
        let n: usize = self.values.len();
        if n == 0 {
            return 0;
        }
        proof {
            lemma_bounds(self.values@);
            let s = total(self.values@);
            let a = if s >= 0 {
                s
            } else {
                -s
            };
            let m = n as int;
            assert(0 <= (a * 1000) / m <= 0x8000_0000 * 1000) by (nonlinear_arith)
                requires
                    0 <= a <= m * 0x8000_0000,
                    0 < m,
            ;
        }
        if self.sum >= 0 {
            ((self.sum as u128) * 1000 / (n as u128)) as i64
        } else {
            -(((-self.sum) as u128 * 1000 / (n as u128)) as i64)
        }
    }

    fn spread_now(&self) -> (r: Wide)
        requires
            self.wf(),
        ensures
            r@ == spread(self@.values),
            r.high < 0x4000_0000_0000_0000,
            r@ <= self@.values.len() * (self@.values.len() * 0x4000_0000_0000_0000),
    {
        proof {
            lemma_bounds(self.values@);
        }
        let n: u128 = self.values.len() as u128;
        let size: u128 = if self.sum >= 0 {
            self.sum as u128
        } else {
            (-self.sum) as u128
        };
        proof {
            let q = total_squares(self.values@);
            let s = total(self.values@);
            lemma_spread(self.values@);
            assert(size * size == s * s) by (nonlinear_arith)
                requires
                    size == s || size == -s,
            ;
            assert(0 <= s * s) by (nonlinear_arith);
            assert(0 <= n * q <= n * (n * 0x4000_0000_0000_0000)) by (nonlinear_arith)
                requires
                    0 <= n,
                    0 <= q <= n * 0x4000_0000_0000_0000,
            ;
            assert(n * (n * 0x4000_0000_0000_0000) < 0x1_0000_0000_0000_0000
                * 0x1_0000_0000_0000_0000 * 0x4000_0000_0000_0000) by (nonlinear_arith)
                requires
                    0 <= n < 0x1_0000_0000_0000_0000,
            ;
        }
        difference(product(n, self.sum_sq as u128), product(size, size))
    }

    /// The variance, in millionths.
    pub fn variance(&self) -> (r: u128)
        requires
            self.wf(),
        ensures
            r == if self@.values.len() < 2 {
                0
            } else {
                spread(self@.values) / (self@.values.len() * self@.values.len()) as int
            },
    {
        if self.values.len() < 2 {
            return 0;
        }
        let n: u128 = self.values.len() as u128;
        assert(0 < n * n <= u128::MAX) by (nonlinear_arith)
            requires
                2 <= n <= 0xffff_ffff_ffff_ffff,
        ;
        let square: u128 = n * n;
        assert(square == self.values@.len() * self.values@.len());
        assert(n * (n * 0x4000_0000_0000_0000) < QUOTIENT_LIMIT * square) by (nonlinear_arith)
            requires
                square == n * n,
                square > 0,
                QUOTIENT_LIMIT > 0x4000_0000_0000_0000,
        ;
        quotient(self.spread_now(), square)
    }

    fn root_now(&self) -> (r: u128)
        requires
            self.wf(),
        ensures
            r == root(spread(self@.values) * 1_000_000),
            is_root(r as int, spread(self@.values) * 1_000_000),
    {
        let scaled = multiple(self.spread_now(), 1_000_000);
        assert(scaled.high < 0x1000_0000_0000_0000_0000_0000_0000_0000);
        square_root(scaled)
    }

    /// The standard deviation, in millionths.
    pub fn std_dev(&self) -> (r: u128)
        requires
            self.wf(),
        ensures
            r == if self@.values.len() < 2 {
                0
            } else {
                root(spread(self@.values) * 1_000_000) / self@.values.len() as int
            },
    {
        if self.values.len() < 2 {
            return 0;
        }
        self.root_now() / self.values.len() as u128
    }

    /// The distance of a value from the mean, in standard deviations and in
    /// millionths.
    pub fn zscore(&self, value: i64) -> (r: i128)
        requires
            self.wf(),
        ensures
            r == standard_score(self@.values, value as int),
            -i128::MAX <= r,
    {
        if self.values.len() < 2 {
            return 0;
        }
        let spread = self.spread_now();
        if spread.high == 0 && spread.low == 0 {
            return 0;
        }
        let root: u128 = self.root_now();
        let n: i128 = self.values.len() as i128;
        proof {
            lemma_bounds(self.values@);
            lemma_spread_gap(self.values@);
            assert(-(n * 0x8000_0000_0000_0000) <= n * value <= n * 0x8000_0000_0000_0000)
                by (nonlinear_arith)
                requires
                    0 <= n,
                    -0x8000_0000_0000_0000 <= value <= 0x7fff_ffff_ffff_ffff,
            ;
        }
        let reach: i128 = n * value as i128;
        let sum: i128 = self.sum;
        assert(reach == self.values@.len() * value);
        let far: u128 = if reach >= sum {
            gap(reach, sum)
        } else {
            gap(sum, reach)
        };
        proof {
            lemma_score_fits(far as int, root as int, n as int, spread@);
        }
        let steps: u128 = quotient(product(far, 1_000_000_000), root);
        if reach >= sum {
            steps as i128
        } else {
            -(steps as i128)
        }
    }

    /// The number of values.
    pub fn count(&self) -> (n: usize)
        ensures
            n == self@.values.len(),
    {
        self.values.len()
    }

    /// The values of the last `window_ms` milliseconds before `now`.
    pub fn values_in_window(&self, window_ms: u64, now: u64) -> (r: Vec<i32>)
        requires
            self.wf(),
        ensures
            r@ == values_since(
                self@.values,
                self@.timestamps,
                now - window_ms,
                self@.values.len(),
            ),
    {
        let cutoff: u64 = if now >= window_ms { now - window_ms } else { 0 };
        let mut r: Vec<i32> = Vec::new();
        let mut i: usize = 0;
        while i < self.values.len()
            invariant
                i <= self.values@.len(),
                self.values@.len() == self.timestamps@.len(),
                cutoff == if now >= window_ms { now - window_ms } else { 0 },
                r@ == values_since(self@.values, self@.timestamps, now - window_ms, i as nat),
            decreases self.values@.len() - i,
        {
            if self.timestamps[i] >= cutoff {
                r.push(self.values[i]);
            }
            i += 1;
        }
        r
    }

    /// The value at a position, and its time.
    pub fn entry(&self, i: usize) -> (r: (i32, u64))
        requires
            self.wf(),
            i < self@.values.len(),
        ensures
            r.0 == self@.values[i as int],
            r.1 == self@.timestamps[i as int],
    {
        (self.values[i], self.timestamps[i])
    }

    /// How many values are kept.
    pub fn capacity(&self) -> (r: usize)
        ensures
            r == self@.max_size,
    {
        self.max_size
    }
}

fn square_of(v: i32) -> (r: i128)
    ensures
        r == v * v,
{
    proof {
        lemma_square(v);
    }
    let wide: i128 = v as i128;
    assert(wide * wide == v * v);
    wide * wide
}

/// Scores are small enough for a signed word.
proof fn lemma_score_fits(far: int, root: int, n: int, spread: int)
    requires
        2 <= n < 0x1_0000_0000_0000_0000,
        0 <= far <= n * 0x1_0000_0000_0000_0000,
        0 < spread,
        n - 1 <= spread,
        is_root(root, spread * 1_000_000),
    ensures
        1000 <= root,
        far * 1_000_000_000 < QUOTIENT_LIMIT * root,
{
    assert(1000 <= root) by (nonlinear_arith)
        requires
            root >= 0,
            spread >= 1,
            spread * 1_000_000 < (root + 1) * (root + 1),
    ;
    assert(4 * (root * root) >= (root + 1) * (root + 1)) by (nonlinear_arith)
        requires
            root >= 1000,
    ;
    assert(2 * spread >= n);
    assert(root * root > 0x1_0000 * n);
    assert(n < root * 0x2_0000_0000) by (nonlinear_arith)
        requires
            root * root > 0x1_0000 * n,
            0 < n < 0x1_0000_0000_0000_0000,
            0 < root,
    ;
    assert(QUOTIENT_LIMIT == 0x8000_0000_0000_0000_0000_0000_0000_0000);
}

/// How a day's activity spreads over its hours.
pub struct HourlyPattern {
    hourly_counts: Vec<u64>,
    total_observations: u64,
}

/// What was counted.
#[verifier::ext_equal]
pub struct HourlyModel {
    pub counts: Seq<u64>,
    pub total: u64,
}

impl View for HourlyPattern {
    type V = HourlyModel;

    closed spec fn view(&self) -> HourlyModel {
        HourlyModel { counts: self.hourly_counts@, total: self.total_observations }
    }
}

/// The sum of counts.
pub open spec fn total_counts(counts: Seq<u64>) -> nat
    decreases counts.len(),
{
    if counts.len() == 0 {
        0
    } else {
        total_counts(counts.drop_last()) + counts.last() as nat
    }
}

proof fn lemma_count_up(counts: Seq<u64>, i: int)
    requires
        0 <= i < counts.len(),
        counts[i] < u64::MAX,
    ensures
        total_counts(counts.update(i, (counts[i] + 1) as u64)) == total_counts(counts) + 1,
    decreases counts.len(),
{
    let more = counts.update(i, (counts[i] + 1) as u64);
    if i == counts.len() - 1 {
        assert(more.drop_last() =~= counts.drop_last());
    } else {
        lemma_count_up(counts.drop_last(), i);
        assert(more.drop_last() =~= counts.drop_last().update(i, (counts[i] + 1) as u64));
    }
}

proof fn lemma_count_within(counts: Seq<u64>, i: int)
    requires
        0 <= i < counts.len(),
    ensures
        counts[i] <= total_counts(counts),
    decreases counts.len(),
{
    if i < counts.len() - 1 {
        lemma_count_within(counts.drop_last(), i);
    }
}

/// No observations.
pub open spec fn no_hours() -> HourlyModel {
    HourlyModel { counts: Seq::new(24, |i: int| 0u64), total: 0 }
}

/// One observation more, where the hour is one of a day and the count has room.
pub open spec fn with_hour(m: HourlyModel, hour: int) -> HourlyModel {
    if 0 <= hour < 24 && m.total < u64::MAX {
        HourlyModel {
            counts: m.counts.update(hour, (m.counts[hour] + 1) as u64),
            total: (m.total + 1) as u64,
        }
    } else {
        m
    }
}

/// Whether an hour has less than half its even share of the observations, of
/// which there are at least a hundred.
pub open spec fn low_activity(m: HourlyModel, hour: int) -> bool {
    m.total >= 100 && (hour >= 24 || m.counts[hour] * 48 < m.total)
}

/// Whether an hour's share of the observations, of which there are at least a
/// hundred, is further from the even one than `threshold` millionths of it.
pub open spec fn unusual_hour(m: HourlyModel, hour: int, threshold: int) -> bool {
    let share = if hour >= 24 { 0 } else { m.counts[hour] as int };
    m.total >= 100 && if share * 24 >= m.total {
        (share * 24 - m.total) * 1_000_000 > threshold * m.total
    } else {
        (m.total - share * 24) * 1_000_000 > threshold * m.total
    }
}

impl HourlyPattern {
    /// There is a count for each hour, and their sum is the number of
    /// observations.
    pub closed spec fn wf(&self) -> bool {
        &&& self.hourly_counts@.len() == 24
        &&& total_counts(self.hourly_counts@) == self.total_observations
    }

    /// What holds of a pattern.
    pub proof fn lemma_wf(&self)
        requires
            self.wf(),
        ensures
            self@.counts.len() == 24,
            total_counts(self@.counts) == self@.total,
    {
    }

    /// Counts an observation.
    pub fn record(&mut self, hour: usize)
        requires
            old(self).wf(),
        ensures
            final(self).wf(),
            final(self)@ == with_hour(old(self)@, hour as int),
    {
        if hour < 24 && self.total_observations < u64::MAX {
            proof {
                lemma_count_within(self.hourly_counts@, hour as int);
                lemma_count_up(self.hourly_counts@, hour as int);
            }
            let count: u64 = self.hourly_counts[hour] + 1;
            self.hourly_counts.set(hour, count);
            self.total_observations = self.total_observations + 1;
        }
    }

    /// An hour's share of the observations, in millionths.
    pub fn expected_rate(&self, hour: usize) -> (r: u64)
        requires
            self.wf(),
        ensures
            r == if self@.total == 0 || hour >= 24 {
                0
            } else {
                self@.counts[hour as int] * 1_000_000 / self@.total as int
            },
            r <= 1_000_000,
    {
        if self.total_observations == 0 || hour >= 24 {
            return 0;
        }
        proof {
            lemma_count_within(self.hourly_counts@, hour as int);
        }
        let count: u128 = self.hourly_counts[hour] as u128;
        let all: u128 = self.total_observations as u128;
        let share: u128 = count * 1_000_000 / all;
        assert(share <= 1_000_000) by (nonlinear_arith)
            requires
                share == (count * 1_000_000) / (all as int),
                count <= all,
                all > 0,
        ;
        share as u64
    }

    /// Whether activity at an hour is unusual.
    pub fn is_unusual(&self, hour: usize, threshold: u32) -> (r: bool)
        requires
            self.wf(),
        ensures
            r == unusual_hour(self@, hour as int, threshold as int),
    {
        if self.total_observations < 100 {
            return false;
        }
        let all: u128 = self.total_observations as u128;
        let share: u128 = if hour >= 24 { 0 } else { self.hourly_counts[hour] as u128 };
        let bound: u128 = threshold as u128;
        assert(bound * all <= 0xffff_ffff * 0xffff_ffff_ffff_ffff) by (nonlinear_arith)
            requires
                bound <= 0xffff_ffff,
                all <= 0xffff_ffff_ffff_ffff,
        ;
        assert(bound * all == threshold * self.total_observations);
        if share * 24 >= all {
            (share * 24 - all) * 1_000_000 > bound * all
        } else {
            (all - share * 24) * 1_000_000 > bound * all
        }
    }

    /// Whether little happens at an hour.
    pub fn is_low_activity_period(&self, hour: usize) -> (r: bool)
        requires
            self.wf(),
        ensures
            r == low_activity(self@, hour as int),
    {
        if self.total_observations < 100 {
            return false;
        }
        hour >= 24 || self.hourly_counts[hour] as u128 * 48 < self.total_observations as u128
    }

    /// The count of an hour.
    pub fn count_at(&self, hour: usize) -> (r: u64)
        requires
            self.wf(),
            hour < 24,
        ensures
            r == self@.counts[hour as int],
    {
        self.hourly_counts[hour]
    }

    /// A pattern with the counts given, where they are those of a day.
    pub fn from_counts(counts: &Vec<u64>) -> (r: Option<HourlyPattern>)
        ensures
            r is Some <==> counts@.len() == 24 && total_counts(counts@) <= u64::MAX,
            r matches Some(p) ==> p.wf() && p@.counts == counts@,
    {
        if counts.len() != 24 {
            return None;
        }
        let mut copy: Vec<u64> = Vec::new();
        let mut total: u128 = 0;
        let mut i: usize = 0;
        assert(counts@.take(0) =~= Seq::<u64>::empty());
        while i < 24
            invariant
                i <= 24,
                counts@.len() == 24,
                copy@ == counts@.take(i as int),
                total == total_counts(counts@.take(i as int)),
                total <= i * 0xffff_ffff_ffff_ffff,
            decreases 24 - i,
        {
            assert(counts@.take(i + 1).drop_last() =~= counts@.take(i as int));
            assert(counts@.take(i + 1) =~= counts@.take(i as int).push(counts@[i as int]));
            copy.push(counts[i]);
            total = total + counts[i] as u128;
            i += 1;
        }
        assert(counts@.take(24) =~= counts@);
        if total > u64::MAX as u128 {
            return None;
        }
        Some(HourlyPattern { hourly_counts: copy, total_observations: total as u64 })
    }
}

impl Default for HourlyPattern {
    fn default() -> (r: HourlyPattern)
        ensures
            r.wf(),
            r@ == no_hours(),
    {
        let mut hourly_counts: Vec<u64> = Vec::new();
        let mut i: usize = 0;
        assert(total_counts(hourly_counts@) == 0);
        while i < 24
            invariant
                i <= 24,
                hourly_counts@.len() == i,
                forall|j: int| 0 <= j < i ==> hourly_counts@[j] == 0,
                total_counts(hourly_counts@) == 0,
            decreases 24 - i,
        {
            let ghost before = hourly_counts@;
            hourly_counts.push(0);
            assert(hourly_counts@.drop_last() =~= before);
            i += 1;
        }
        let r = HourlyPattern { hourly_counts, total_observations: 0 };
        assert(r@ =~= no_hours());
        r
    }
}

/// Adding a value never makes the series longer than its size, or than one.
pub proof fn law_series_stays_within_its_size(m: RollingModel, value: i32, timestamp: u64)
    requires
        m.values.len() <= m.max_size || m.values.len() <= 1,
    ensures
        ({
            let after = with_value(m, value, timestamp).values.len();
            after <= m.max_size || after <= 1
        }),
{
}

/// A series after the first `n` of some values, each at its time.
pub open spec fn after_values(
    m: RollingModel,
    values: Seq<i32>,
    timestamps: Seq<u64>,
    n: nat,
) -> RollingModel
    decreases n,
{
    if n == 0 {
        m
    } else {
        with_value(
            after_values(m, values, timestamps, (n - 1) as nat),
            values[n - 1],
            timestamps[n - 1],
        )
    }
}

/// A series that keeps some values holds the newest of all that were added to it, as
/// many as it keeps, and older ones leave no trace. So its mean and its deviation are
/// those of these.
pub proof fn law_series_holds_the_newest(
    max_size: nat,
    values: Seq<i32>,
    timestamps: Seq<u64>,
    n: nat,
)
    requires
        max_size >= 1,
        n <= values.len(),
        values.len() == timestamps.len(),
    ensures
        ({
            let after = after_values(no_values(max_size), values, timestamps, n);
            let kept = if n < max_size {
                n
            } else {
                max_size
            };
            let newest = values.subrange(n - kept, n as int);
            &&& after.values == newest
            &&& after.timestamps == timestamps.subrange(n - kept, n as int)
            &&& after.values.len() == kept
            &&& mean_of(after.values) == mean_of(newest)
            &&& spread(after.values) == spread(newest)
            &&& after.max_size == max_size
        }),
    decreases n,
{
    let after = after_values(no_values(max_size), values, timestamps, n);
    let kept = if n < max_size {
        n
    } else {
        max_size
    };
    if n > 0 {
        law_series_holds_the_newest(max_size, values, timestamps, (n - 1) as nat);
    }
    assert(after.values =~= values.subrange(n - kept, n as int));
    assert(after.timestamps =~= timestamps.subrange(n - kept, n as int));
}

/// Over equal values no value stands out.
pub proof fn law_equal_values_have_no_score(values: Seq<i32>, v: i32, value: int)
    requires
        forall|i: int| 0 <= i < values.len() ==> values[i] == v,
    ensures
        standard_score(values, value) == 0,
{
    lemma_equal_sums(values, v);
    let n = values.len() as int;
    let w = v as int;
    assert(n * (n * (w * w)) - (n * w) * (n * w) == 0) by (nonlinear_arith);
}

proof fn lemma_equal_sums(values: Seq<i32>, v: i32)
    requires
        forall|i: int| 0 <= i < values.len() ==> values[i] == v,
    ensures
        total(values) == values.len() * v,
        total_squares(values) == values.len() * (v * v),
    decreases values.len(),
{
    if values.len() > 0 {
        let rest = values.drop_last();
        lemma_equal_sums(rest, v);
        let n = rest.len() as int;
        let w = v as int;
        assert((n + 1) * w == n * w + w) by (nonlinear_arith);
        assert((n + 1) * (w * w) == n * (w * w) + w * w) by (nonlinear_arith);
    } else {
        assert(0 * v == 0);
        assert(0 * (v * v) == 0);
    }
}

/// The mean, taken as often as there are values, is their sum to within one step for each.
pub proof fn law_the_mean_shares_the_sum(values: Seq<i32>)
    requires
        values.len() > 0,
    ensures
        ({
            let n = values.len();
            let sum = total(values) * 1000;
            &&& sum >= 0 ==> mean_of(values) * n <= sum < (mean_of(values) + 1) * n
            &&& sum < 0 ==> (mean_of(values) - 1) * n < sum <= mean_of(values) * n
        }),
{
    let n = values.len() as int;
    let sum = total(values) * 1000;
    if sum >= 0 {
        let q = sum / n;
        assert(q * n <= sum < (q + 1) * n) by (nonlinear_arith)
            requires
                q == sum / n,
                n > 0,
        ;
    } else {
        let q = (-sum) / n;
        assert((-q - 1) * n < sum <= (-q) * n) by (nonlinear_arith)
            requires
                q == (-sum) / n,
                n > 0,
        ;
    }
}

/// Sums add up: the sum of two series, one behind the other, is that of their sums, and so
/// for the sums of the squares.
pub proof fn law_sums_add_up(a: Seq<i32>, b: Seq<i32>)
    ensures
        total(a + b) == total(a) + total(b),
        total_squares(a + b) == total_squares(a) + total_squares(b),
        forall|x: i32| total(#[trigger] seq_of(x)) == x && total_squares(seq_of(x)) == x * x,
    decreases b.len(),
{
    reveal_with_fuel(total, 2);
    reveal_with_fuel(total_squares, 2);
    assert forall|x: i32| total(#[trigger] seq_of(x)) == x && total_squares(seq_of(x)) == x * x by {
        assert(seq_of(x).drop_last() =~= Seq::<i32>::empty());
    }
    if b.len() > 0 {
        law_sums_add_up(a, b.drop_last());
        assert((a + b).drop_last() =~= a + b.drop_last());
    } else {
        assert(a + b =~= a);
    }
}

/// A series of one value.
pub open spec fn seq_of(x: i32) -> Seq<i32> {
    Seq::empty().push(x)
}

/// Of two different values the greater lies one standard deviation above their mean, and
/// the other one below it.
pub proof fn law_two_values_lie_one_deviation_apart(a: i32, b: i32)
    requires
        a < b,
    ensures
        ({
            let values = Seq::empty().push(a).push(b);
            &&& spread(values) == (b - a) * (b - a)
            &&& standard_score(values, b as int) == 1_000_000
            &&& standard_score(values, a as int) == -1_000_000
        }),
{
    let values = Seq::empty().push(a).push(b);
    reveal_with_fuel(total, 3);
    reveal_with_fuel(total_squares, 3);
    assert(values.drop_last() =~= Seq::empty().push(a));
    assert(values.drop_last().drop_last() =~= Seq::<i32>::empty());
    assert(total(values) == a + b);
    assert(total_squares(values) == a * a + b * b);
    let d = b - a;
    let (x, y) = (a as int, b as int);
    assert(2 * (x * x + y * y) - (x + y) * (x + y) == d * d) by (nonlinear_arith)
        requires
            d == y - x,
    ;
    assert(spread(values) == d * d);
    assert(d * d > 0) by (nonlinear_arith)
        requires
            d > 0,
    ;
    let r = d * 1000;
    assert(0 <= r && r * r <= (d * d) * 1_000_000 < (r + 1) * (r + 1)) by (nonlinear_arith)
        requires
            d > 0,
            r == d * 1000,
    ;
    lemma_root(r, spread(values) * 1_000_000);
    assert((d * 1_000_000_000) / r == 1_000_000) by (nonlinear_arith)
        requires
            d > 0,
            r == d * 1000,
    ;
    assert((-d) * 1_000_000_000 == -(d * 1_000_000_000));
}

/// The values of a time are those noted at it or later, and no others.
pub proof fn law_values_of_a_time(
    values: Seq<i32>,
    timestamps: Seq<u64>,
    cutoff: int,
    n: nat,
    x: i32,
)
    requires
        n <= values.len(),
        n <= timestamps.len(),
    ensures
        values_since(values, timestamps, cutoff, n).contains(x) <==> exists|i: int|
            0 <= i < n && (#[trigger] values[i]) == x && timestamps[i] >= cutoff,
        values_since(values, timestamps, cutoff, n).len() <= n,
        (forall|i: int| 0 <= i < n ==> #[trigger] timestamps[i] >= cutoff) ==> values_since(
            values,
            timestamps,
            cutoff,
            n,
        ) == values.take(n as int),
    decreases n,
{
    if n > 0 {
        let m = (n - 1) as nat;
        law_values_of_a_time(values, timestamps, cutoff, m, x);
        let before = values_since(values, timestamps, cutoff, m);
        let after = values_since(values, timestamps, cutoff, n);
        if before.contains(x) {
            let k = choose|k: int| 0 <= k < before.len() && before[k] == x;
            assert(after[k] == x);
        }
        if after.contains(x) {
            let k = choose|k: int| 0 <= k < after.len() && after[k] == x;
            if k < before.len() {
                assert(before[k] == x);
            } else {
                assert(values[n - 1] == x);
            }
        }
        if exists|i: int| 0 <= i < n && (#[trigger] values[i]) == x && timestamps[i] >= cutoff {
            let i = choose|i: int|
                0 <= i < n && (#[trigger] values[i]) == x && timestamps[i] >= cutoff;
            if i == n - 1 {
                assert(after.last() == x);
            }
        }
        if forall|i: int| 0 <= i < n ==> #[trigger] timestamps[i] >= cutoff {
            assert(timestamps[n - 1] >= cutoff);
            assert(after =~= values.take(n as int));
        }
    } else {
        assert(values.take(0) =~= Seq::<i32>::empty());
    }
}

/// An observation counts for its hour and for no other.
pub proof fn law_observations_count_for_their_hour(m: HourlyModel, hour: int, other: int)
    requires
        m.counts.len() == 24,
        0 <= hour < 24,
        0 <= other < 24,
        m.total < u64::MAX,
        m.counts[hour] < u64::MAX,
    ensures
        with_hour(m, hour).counts[hour] == m.counts[hour] + 1,
        other != hour ==> with_hour(m, hour).counts[other] == m.counts[other],
        with_hour(m, hour).total == m.total + 1,
{
}

/// With a hundred observations an hour is judged, and not before. One with its even share
/// of them is neither unusual nor one of low activity; one without any is of low activity,
/// and unusual at any threshold below the whole of the even share; so is one with all of
/// them at a threshold below twenty-three times that share. Whatever is unusual at a
/// threshold is so at a lower one.
pub proof fn law_which_hours_are_unusual(m: HourlyModel, hour: int, low: int, high: int)
    requires
        m.counts.len() == 24,
        0 <= hour < 24,
        0 <= low <= high,
    ensures
        m.total < 100 ==> !unusual_hour(m, hour, low) && !low_activity(m, hour),
        m.total >= 100 && m.counts[hour] * 24 == m.total ==> !unusual_hour(m, hour, low)
            && !low_activity(m, hour),
        m.total >= 100 && m.counts[hour] == 0 ==> low_activity(m, hour) && (unusual_hour(
            m,
            hour,
            low,
        ) <==> low < 1_000_000),
        m.total >= 100 && m.counts[hour] == m.total ==> !low_activity(m, hour) && (unusual_hour(
            m,
            hour,
            low,
        ) <==> low < 23_000_000),
        m.total >= 100 ==> (low_activity(m, hour) <==> m.counts[hour] * 48 < m.total),
        unusual_hour(m, hour, high) ==> unusual_hour(m, hour, low),
{
    let t = m.total as int;
    assert(low * t <= high * t && 0 <= low * t) by (nonlinear_arith)
        requires
            0 <= low <= high,
            t >= 0,
    ;
    if t > 0 {
        assert(t * 1_000_000 > low * t <==> low < 1_000_000) by (nonlinear_arith)
            requires
                t > 0,
        ;
        assert(t * 23_000_000 > low * t <==> low < 23_000_000) by (nonlinear_arith)
            requires
                t > 0,
        ;
    }
}

} // verus!
