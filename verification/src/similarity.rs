//! How alike two texts are, by their longest common subsequence.
use vstd::prelude::*;

use crate::text::{characters, same};

verus! {

/// The greater of two numbers.
pub open spec fn greater(a: nat, b: nat) -> nat {
    if a >= b {
        a
    } else {
        b
    }
}

/// The length of the longest common subsequence of two sequences.
pub open spec fn lcs(a: Seq<char>, b: Seq<char>) -> nat
    decreases a.len() + b.len(),
{
    if a.len() == 0 || b.len() == 0 {
        0
    } else if a.last() == b.last() {
        lcs(a.drop_last(), b.drop_last()) + 1
    } else {
        greater(lcs(a.drop_last(), b), lcs(a, b.drop_last()))
    }
}

/// Whether a sequence comes out of another by leaving items out.
pub open spec fn subsequence(s: Seq<char>, a: Seq<char>) -> bool
    decreases a.len(),
{
    if s.len() == 0 {
        true
    } else if a.len() == 0 {
        false
    } else {
        (s.last() == a.last() && subsequence(s.drop_last(), a.drop_last())) || subsequence(
            s,
            a.drop_last(),
        )
    }
}

/// A longest common subsequence of two sequences.
pub open spec fn common(a: Seq<char>, b: Seq<char>) -> Seq<char>
    decreases a.len() + b.len(),
{
    if a.len() == 0 || b.len() == 0 {
        Seq::empty()
    } else if a.last() == b.last() {
        common(a.drop_last(), b.drop_last()).push(a.last())
    } else if lcs(a.drop_last(), b) >= lcs(a, b.drop_last()) {
        common(a.drop_last(), b)
    } else {
        common(a, b.drop_last())
    }
}

proof fn lemma_shorter_subsequence(s: Seq<char>, a: Seq<char>)
    requires
        s.len() > 0,
        subsequence(s, a),
    ensures
        subsequence(s.drop_last(), a),
    decreases a.len(),
{
    if a.len() > 0 {
        if s.last() == a.last() && subsequence(s.drop_last(), a.drop_last()) {
            lemma_longer_sequence(s.drop_last(), a);
        } else {
            lemma_shorter_subsequence(s, a.drop_last());
            lemma_longer_sequence(s.drop_last(), a);
        }
    }
}

proof fn lemma_longer_sequence(s: Seq<char>, a: Seq<char>)
    requires
        a.len() > 0,
        subsequence(s, a.drop_last()),
    ensures
        subsequence(s, a),
{
}

/// Two texts have a common subsequence of the length, and none is longer.
pub proof fn law_lcs_is_longest(a: Seq<char>, b: Seq<char>, s: Seq<char>)
    ensures
        subsequence(common(a, b), a),
        subsequence(common(a, b), b),
        common(a, b).len() == lcs(a, b),
        subsequence(s, a) && subsequence(s, b) ==> s.len() <= lcs(a, b),
    decreases a.len() + b.len(),
{
    if a.len() > 0 && b.len() > 0 {
        let a1 = a.drop_last();
        let b1 = b.drop_last();
        if a.last() == b.last() {
            law_lcs_is_longest(a1, b1, if s.len() > 0 { s.drop_last() } else { s });
            let c = common(a1, b1).push(a.last());
            assert(c.drop_last() =~= common(a1, b1));
            if s.len() > 0 && subsequence(s, a) && subsequence(s, b) {
                if subsequence(s, a1) {
                    lemma_shorter_subsequence(s, a1);
                }
                if subsequence(s, b1) {
                    lemma_shorter_subsequence(s, b1);
                }
            }
        } else {
            law_lcs_is_longest(a1, b, s);
            law_lcs_is_longest(a, b1, s);
        }
    }
}

/// The length is the same whichever text comes first, and no text is shorter
/// than it.
pub proof fn law_lcs_is_symmetric(a: Seq<char>, b: Seq<char>)
    ensures
        lcs(a, b) == lcs(b, a),
        lcs(a, b) <= a.len(),
        lcs(a, b) <= b.len(),
    decreases a.len() + b.len(),
{
    if a.len() > 0 && b.len() > 0 {
        law_lcs_is_symmetric(a.drop_last(), b.drop_last());
        law_lcs_is_symmetric(a.drop_last(), b);
        law_lcs_is_symmetric(a, b.drop_last());
    }
}

/// A text is its own longest common subsequence.
pub proof fn law_lcs_of_itself(a: Seq<char>)
    ensures
        lcs(a, a) == a.len(),
    decreases a.len(),
{
    if a.len() > 0 {
        law_lcs_of_itself(a.drop_last());
    }
}

/// The length of the longest common subsequence of two texts.
pub fn lcs_length(s1: &str, s2: &str) -> (r: usize)
    ensures
        r == lcs(s1@, s2@),
        r <= s1@.len(),
        r <= s2@.len(),
{
    let x = characters(s1);
    let y = characters(s2);
    let ghost a = s1@;
    let ghost b = s2@;
    let m: usize = x.len();
    let n: usize = y.len();
    let mut prev: Vec<usize> = Vec::new();
    let mut k: usize = 0;
    prev.push(0);
    while k < n
        invariant
            k <= n,
            prev@.len() == k + 1,
            forall|j: int| 0 <= j < prev@.len() ==> prev@[j] == 0,
        decreases n - k,
    {
        prev.push(0);
        k += 1;
    }
    let mut i: usize = 0;
    assert(forall|j: int| 0 <= j <= n ==> #[trigger] lcs(a.take(0), b.take(j)) == 0);
    while i < m
        invariant
            i <= m,
            x@ == a,
            y@ == b,
            m == a.len(),
            n == b.len(),
            prev@.len() == n + 1,
            forall|j: int| 0 <= j <= n ==> prev@[j] == #[trigger] lcs(a.take(i as int), b.take(j)),
        decreases m - i,
    {
        let mut curr: Vec<usize> = Vec::new();
        curr.push(0);
        let mut j: usize = 0;
        let ghost above = a.take(i as int);
        let ghost row = a.take(i + 1);
        assert(row.drop_last() =~= above);
        assert(lcs(row, b.take(0)) == 0);
        while j < n
            invariant
                i < m,
                j <= n,
                x@ == a,
                y@ == b,
                m == a.len(),
                n == b.len(),
                prev@.len() == n + 1,
                curr@.len() == j + 1,
                above == a.take(i as int),
                row == a.take(i + 1),
                row.drop_last() == above,
                forall|k: int|
                    0 <= k <= n ==> prev@[k] == #[trigger] lcs(a.take(i as int), b.take(k)),
                forall|k: int| 0 <= k <= j ==> curr@[k] == #[trigger] lcs(row, b.take(k)),
            decreases n - j,
        {
            let ghost left = b.take(j as int);
            let ghost here = b.take(j + 1);
            assert(here.drop_last() =~= left);
            assert(prev@[j as int] == lcs(above, left));
            assert(prev@[j + 1] == lcs(above, here));
            assert(curr@[j as int] == lcs(row, left));
            proof {
                law_lcs_is_symmetric(above, left);
            }
            let next: usize = if x[i] == y[j] {
                prev[j] + 1
            } else if prev[j + 1] >= curr[j] {
                prev[j + 1]
            } else {
                curr[j]
            };
            let ghost before = curr@;
            curr.push(next);
            assert(next == lcs(row, here));
            assert forall|k: int| 0 <= k <= j + 1 implies curr@[k] == #[trigger] lcs(
                row,
                b.take(k),
            ) by {
                if k <= j {
                    assert(curr@[k] == before[k]);
                }
            }
            j += 1;
        }
        prev = curr;
        i += 1;
    }
    assert(a.take(m as int) =~= a);
    assert(b.take(n as int) =~= b);
    proof {
        law_lcs_is_symmetric(a, b);
    }
    prev[n]
}

/// How alike two texts are, in millionths: their longest common subsequence over
/// the length of the longer; equal texts are wholly alike, and the empty text is
/// like no other.
pub open spec fn similarity(a: Seq<char>, b: Seq<char>) -> u32 {
    if a == b {
        1_000_000
    } else if a.len() == 0 || b.len() == 0 {
        0
    } else {
        (lcs(a, b) * 1_000_000 / greater(a.len(), b.len())) as u32
    }
}

/// How alike two texts are, in millionths.
pub fn likeness(s1: &str, s2: &str) -> (r: u32)
    ensures
        r == similarity(s1@, s2@),
        r <= 1_000_000,
{
    if same(s1, s2) {
        return 1_000_000;
    }
    if s1.is_empty() || s2.is_empty() {
        return 0;
    }
    let length: usize = lcs_length(s1, s2);
    let n1: usize = characters(s1).len();
    let n2: usize = characters(s2).len();
    let longer: usize = if n1 >= n2 { n1 } else { n2 };
    proof {
        law_lcs_is_symmetric(s1@, s2@);
        let l = length as int;
        let n = longer as int;
        assert(0 <= (l * 1_000_000) / n <= 1_000_000) by (nonlinear_arith)
            requires
                0 <= l <= n,
                0 < n,
        ;
    }
    (length as u128 * 1_000_000 / longer as u128) as u32
}

/// Texts are alike to the same degree whichever comes first, never more than
/// wholly.
pub proof fn law_similarity_is_symmetric(a: Seq<char>, b: Seq<char>)
    ensures
        similarity(a, b) == similarity(b, a),
        similarity(a, b) <= 1_000_000,
{
    law_lcs_is_symmetric(a, b);
    if a != b && a.len() > 0 && b.len() > 0 {
        let l = lcs(a, b) as int;
        let n = greater(a.len(), b.len()) as int;
        assert(0 <= (l * 1_000_000) / n <= 1_000_000) by (nonlinear_arith)
            requires
                0 <= l <= n,
                0 < n,
        ;
    }
}

/// Two texts whose longest common subsequence is as long as each of them are one
/// text.
proof fn lemma_full_lcs(a: Seq<char>, b: Seq<char>)
    requires
        lcs(a, b) == a.len(),
        lcs(a, b) == b.len(),
    ensures
        a == b,
    decreases a.len(),
{
    if a.len() > 0 {
        if a.last() == b.last() {
            lemma_full_lcs(a.drop_last(), b.drop_last());
            assert(a =~= a.drop_last().push(a.last()));
            assert(b =~= b.drop_last().push(b.last()));
        } else {
            law_lcs_is_symmetric(a.drop_last(), b);
            law_lcs_is_symmetric(a, b.drop_last());
        }
    } else {
        assert(a =~= b);
    }
}

/// Only equal texts are wholly alike.
pub proof fn law_only_equal_texts_are_alike(a: Seq<char>, b: Seq<char>)
    ensures
        similarity(a, b) == 1_000_000 <==> a == b,
{
    if a != b && a.len() > 0 && b.len() > 0 {
        law_lcs_is_symmetric(a, b);
        let l = lcs(a, b) as int;
        let n = greater(a.len(), b.len()) as int;
        if l == n {
            lemma_full_lcs(a, b);
        }
        assert(0 <= (l * 1_000_000) / n < 1_000_000) by (nonlinear_arith)
            requires
                0 <= l < n,
        ;
    }
}

/// Two texts are as alike as the share of the longer one that they have in common: what
/// stands in both in the same order never counts for more, and something that does counts
/// for as much.
pub proof fn law_likeness_is_the_common_share(a: Seq<char>, b: Seq<char>, s: Seq<char>)
    requires
        a != b,
        a.len() > 0,
        b.len() > 0,
    ensures
        ({
            let longer = if a.len() >= b.len() { a.len() } else { b.len() };
            let shared = common(a, b);
            &&& subsequence(s, a) && subsequence(s, b) ==> s.len() * 1_000_000 < (similarity(a, b)
                + 1) * longer
            &&& subsequence(shared, a) && subsequence(shared, b)
            &&& similarity(a, b) * longer <= shared.len() * 1_000_000 < (similarity(a, b) + 1)
                * longer
        }),
{
    let longer = if a.len() >= b.len() { a.len() as int } else { b.len() as int };
    law_lcs_is_longest(a, b, s);
    law_lcs_is_symmetric(a, b);
    let l = lcs(a, b) as int;
    let q = l * 1_000_000 / longer;
    assert(0 <= q <= 1_000_000 && q * longer <= l * 1_000_000 < (q + 1) * longer) by (nonlinear_arith)
        requires
            0 <= l <= longer,
            longer > 0,
            q == l * 1_000_000 / longer,
    ;
}

} // verus!
