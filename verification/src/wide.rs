//! Whole numbers of twice the width of the widest of the machine's.
use vstd::prelude::*;

verus! {

/// Half the width of a word: two to the power of sixty-four.
pub const HALF: u128 = 0x1_0000_0000_0000_0000;

/// A number moved up by a word.
pub open spec fn moved_up(x: int) -> int {
    x * 0x1_0000_0000_0000_0000 * 0x1_0000_0000_0000_0000
}

/// A number in two words.
#[derive(Debug, Clone, Copy)]
pub struct Wide {
    pub high: u128,
    pub low: u128,
}

impl View for Wide {
    type V = int;

    open spec fn view(&self) -> int {
        moved_up(self.high as int) + self.low
    }
}

proof fn lemma_halves(a: u128)
    ensures
        a == (a / HALF) * HALF + a % HALF,
        0 <= a / HALF < HALF,
        0 <= a % HALF < HALF,
{
}

proof fn lemma_below_square(a: int, b: int)
    requires
        0 <= a < HALF,
        0 <= b < HALF,
    ensures
        0 <= a * b <= (HALF - 1) * (HALF - 1),
{
    assert(0 <= a * b <= (HALF - 1) * (HALF - 1)) by (nonlinear_arith)
        requires
            0 <= a <= HALF - 1,
            0 <= b <= HALF - 1,
    ;
}

proof fn lemma_expand(x1: int, x0: int, y1: int, y0: int, h: int)
    ensures
        (x1 * h + x0) * (y1 * h + y0) == (x1 * y1) * (h * h) + (x0 * y1) * h + (x1 * y0) * h + x0
            * y0,
{
    assert((x1 * h + x0) * (y1 * h + y0) == (x1 * h) * (y1 * h) + (x1 * h) * y0 + x0 * (y1 * h)
        + x0 * y0) by (nonlinear_arith);
    assert((x1 * h) * (y1 * h) == (x1 * y1) * (h * h)) by (nonlinear_arith);
    assert((x1 * h) * y0 == (x1 * y0) * h) by (nonlinear_arith);
    assert(x0 * (y1 * h) == (x0 * y1) * h) by (nonlinear_arith);
}

/// The product of two words.
pub fn product(a: u128, b: u128) -> (r: Wide)
    ensures
        r@ == a * b,
{
    let a1: u128 = a / HALF;
    let a0: u128 = a % HALF;
    let b1: u128 = b / HALF;
    let b0: u128 = b % HALF;
    proof {
        lemma_halves(a);
        lemma_halves(b);
        lemma_below_square(a0 as int, b0 as int);
        lemma_below_square(a0 as int, b1 as int);
        lemma_below_square(a1 as int, b0 as int);
        lemma_below_square(a1 as int, b1 as int);
    }
    let p00: u128 = a0 * b0;
    let p01: u128 = a0 * b1;
    let p10: u128 = a1 * b0;
    let p11: u128 = a1 * b1;
    let first: u128 = p01 + p00 / HALF;
    let second: u128 = p10 + first % HALF;
    let high: u128 = p11 + first / HALF + second / HALF;
    let low: u128 = (second % HALF) * HALF + p00 % HALF;
    proof {
        let h = HALF as int;
        lemma_halves(p00);
        lemma_halves(first);
        lemma_halves(second);
        lemma_expand(a1 as int, a0 as int, b1 as int, b0 as int, h);
        let top = a1 * b1;
        assert(top * (h * h) == moved_up(top)) by (nonlinear_arith)
            requires
                h == 0x1_0000_0000_0000_0000,
        ;
    }
    Wide { high, low }
}

/// How much a number is above another.
pub fn difference(a: Wide, b: Wide) -> (r: Wide)
    requires
        b@ <= a@,
    ensures
        r@ == a@ - b@,
{
    if a.low >= b.low {
        Wide { high: a.high - b.high, low: a.low - b.low }
    } else {
        Wide { high: a.high - b.high - 1, low: a.low + (u128::MAX - b.low) + 1 }
    }
}

/// A number times a factor, where that fits.
pub fn multiple(a: Wide, k: u32) -> (r: Wide)
    requires
        a.high < HALF,
    ensures
        r@ == a@ * k,
{
    let lower = product(a.low, k as u128);
    proof {
        let (h, l, f) = (a.high as int, a.low as int, k as int);
        let up = moved_up(h);
        assert((up + l) * f == up * f + l * f) by (nonlinear_arith);
        assert(up * f == moved_up(h * f)) by (nonlinear_arith)
            requires
                up == h * 0x1_0000_0000_0000_0000 * 0x1_0000_0000_0000_0000,
        ;
        assert(0 <= h * f <= 0x1_0000_0000_0000_0000 * 0xffff_ffff) by (nonlinear_arith)
            requires
                0 <= h <= 0x1_0000_0000_0000_0000,
                0 <= f <= 0xffff_ffff,
        ;
        assert(l * f <= l * 0x1_0000_0000) by (nonlinear_arith)
            requires
                0 <= l,
                0 <= f < 0x1_0000_0000,
        ;
    }
    Wide { high: lower.high + a.high * k as u128, low: lower.low }
}

/// Whether a number is at most another.
pub fn at_most(a: Wide, b: Wide) -> (r: bool)
    ensures
        r == (a@ <= b@),
{
    a.high < b.high || (a.high == b.high && a.low <= b.low)
}

} // verus!
