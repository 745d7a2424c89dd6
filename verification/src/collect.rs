//! Vectors: keeping and counting the items that meet a condition.
use vstd::prelude::*;

verus! {

/// An item where a condition holds, else nothing.
pub open spec fn one_if<T>(condition: bool, item: T) -> Seq<T> {
    if condition {
        seq![item]
    } else {
        Seq::empty()
    }
}

/// How filtering a prefix grows with the prefix.
pub proof fn lemma_filter_step<T>(s: Seq<T>, i: int, p: spec_fn(T) -> bool)
    requires
        0 <= i < s.len(),
    ensures
        s.take(i + 1).filter(p) == if p(s[i]) {
            s.take(i).filter(p).push(s[i])
        } else {
            s.take(i).filter(p)
        },
{
    assert(s.take(i + 1).drop_last() =~= s.take(i));
    reveal(Seq::filter);
}

/// Filtering nothing gives nothing.
pub proof fn lemma_filter_nothing<T>(s: Seq<T>, p: spec_fn(T) -> bool)
    ensures
        s.take(0).filter(p) == Seq::<T>::empty(),
{
    reveal(Seq::filter);
    assert(s.take(0).filter(p) =~= Seq::<T>::empty());
}

/// What is kept comes from the sequence and meets the condition, and what meets
/// the condition is kept.
pub proof fn lemma_filter_members<T>(s: Seq<T>, p: spec_fn(T) -> bool)
    ensures
        forall|j: int|
            0 <= j < s.filter(p).len() ==> s.contains(#[trigger] s.filter(p)[j]) && p(
                s.filter(p)[j],
            ),
        forall|i: int| 0 <= i < s.len() && p(#[trigger] s[i]) ==> s.filter(p).contains(s[i]),
        s.filter(p).len() <= s.len(),
    decreases s.len(),
{
    reveal(Seq::filter);
    if s.len() > 0 {
        let rest = s.drop_last();
        lemma_filter_members(rest, p);
        let kept = rest.filter(p);
        assert forall|j: int| 0 <= j < s.filter(p).len() implies s.contains(
            #[trigger] s.filter(p)[j],
        ) && p(s.filter(p)[j]) by {
            if j < kept.len() {
                assert(s.filter(p)[j] == kept[j]);
                let k = choose|k: int| 0 <= k < rest.len() && rest[k] == kept[j];
                assert(s[k] == kept[j]);
            } else {
                assert(s[s.len() - 1] == s.filter(p)[j]);
            }
        }
        assert forall|i: int| 0 <= i < s.len() && p(#[trigger] s[i]) implies s.filter(p).contains(
            s[i],
        ) by {
            if i < rest.len() {
                assert(rest[i] == s[i]);
                assert(kept.contains(rest[i]));
                let j = choose|j: int| 0 <= j < kept.len() && kept[j] == rest[i];
                assert(s.filter(p)[j] == s[i]);
            } else {
                assert(s.filter(p)[kept.len() as int] == s[i]);
            }
        }
    }
}

/// Items that differ in a key still do after filtering.
pub proof fn lemma_filter_distinct<T, K>(s: Seq<T>, p: spec_fn(T) -> bool, key: spec_fn(T) -> K)
    requires
        forall|i: int, j: int|
            0 <= i < j < s.len() ==> key(#[trigger] s[i]) != key(#[trigger] s[j]),
    ensures
        forall|i: int, j: int|
            0 <= i < j < s.filter(p).len() ==> key(#[trigger] s.filter(p)[i]) != key(
                #[trigger] s.filter(p)[j],
            ),
    decreases s.len(),
{
    reveal(Seq::filter);
    if s.len() > 0 {
        let rest = s.drop_last();
        assert forall|i: int, j: int| 0 <= i < j < rest.len() implies key(#[trigger] rest[i])
            != key(#[trigger] rest[j]) by {
            assert(key(s[i]) != key(s[j]));
        }
        lemma_filter_distinct(rest, p, key);
        lemma_filter_members(rest, p);
        let kept = rest.filter(p);
        assert forall|i: int, j: int| 0 <= i < j < s.filter(p).len() implies key(
            #[trigger] s.filter(p)[i],
        ) != key(#[trigger] s.filter(p)[j]) by {
            assert(s.filter(p)[i] == kept[i]);
            if j < kept.len() {
                assert(s.filter(p)[j] == kept[j]);
            } else {
                let k = choose|k: int| 0 <= k < rest.len() && rest[k] == kept[i];
                assert(key(s[k]) != key(s[s.len() - 1]));
            }
        }
    }
}

/// Keeps the items that meet a condition, in their order.
pub fn retain<T, F: Fn(&T) -> bool>(v: &mut Vec<T>, keep: F, Ghost(p): Ghost<spec_fn(T) -> bool>)
    requires
        forall|x: &T| keep.requires((x,)),
        forall|x: &T, r: bool| keep.ensures((x,), r) ==> r == p(*x),
    ensures
        final(v)@ == old(v)@.filter(p),
{
    let ghost all = v@;
    let mut kept: usize = 0;
    let mut seen: usize = 0;
    let total: usize = v.len();
    proof {
        lemma_filter_nothing(all, p);
        assert(all.skip(0) =~= all);
    }
    while seen < total
        invariant
            kept <= seen <= total,
            total == all.len(),
            v@ == all.take(seen as int).filter(p) + all.skip(seen as int),
            kept == all.take(seen as int).filter(p).len(),
            forall|x: &T| keep.requires((x,)),
            forall|x: &T, r: bool| keep.ensures((x,), r) ==> r == p(*x),
        decreases total - seen,
    {
        proof {
            lemma_filter_step(all, seen as int, p);
        }
        assert(v@[kept as int] == all[seen as int]);
        if keep(&v[kept]) {
            assert(v@ =~= all.take(seen + 1).filter(p) + all.skip(seen + 1));
            kept += 1;
        } else {
            v.remove(kept);
            assert(v@ =~= all.take(seen + 1).filter(p) + all.skip(seen + 1));
        }
        seen += 1;
    }
    assert(all.take(seen as int) =~= all);
    assert(v@ =~= all.filter(p));
}

/// How many items meet a condition.
pub fn count_where<T, F: Fn(&T) -> bool>(
    v: &Vec<T>,
    meets: F,
    Ghost(p): Ghost<spec_fn(T) -> bool>,
) -> (n: usize)
    requires
        forall|x: &T| meets.requires((x,)),
        forall|x: &T, r: bool| meets.ensures((x,), r) ==> r == p(*x),
    ensures
        n == v@.filter(p).len(),
        n <= v@.len(),
{
    let mut n: usize = 0;
    let mut i: usize = 0;
    proof {
        lemma_filter_nothing(v@, p);
    }
    while i < v.len()
        invariant
            i <= v@.len(),
            n <= i,
            n == v@.take(i as int).filter(p).len(),
            forall|x: &T| meets.requires((x,)),
            forall|x: &T, r: bool| meets.ensures((x,), r) ==> r == p(*x),
        decreases v@.len() - i,
    {
        proof {
            lemma_filter_step(v@, i as int, p);
        }
        if meets(&v[i]) {
            n += 1;
        }
        i += 1;
    }
    assert(v@.take(i as int) =~= v@);
    n
}

/// The first position whose item meets a condition.
pub open spec fn first_index<T>(s: Seq<T>, p: spec_fn(T) -> bool) -> Option<int>
    decreases s.len(),
{
    if s.len() == 0 {
        None
    } else {
        match first_index(s.drop_last(), p) {
            Some(i) => Some(i),
            None => if p(s.last()) {
                Some(s.len() - 1)
            } else {
                None
            },
        }
    }
}

/// What the first position is.
pub proof fn lemma_first_index<T>(s: Seq<T>, p: spec_fn(T) -> bool)
    ensures
        match first_index(s, p) {
            Some(i) => 0 <= i < s.len() && p(s[i]) && forall|j: int| 0 <= j < i ==> !p(#[trigger] s[j]),
            None => forall|j: int| 0 <= j < s.len() ==> !p(#[trigger] s[j]),
        },
    decreases s.len(),
{
    if s.len() > 0 {
        let rest = s.drop_last();
        lemma_first_index(rest, p);
        match first_index(rest, p) {
            Some(i) => {
                assert(s[i] == rest[i]);
                assert forall|j: int| 0 <= j < i implies !p(#[trigger] s[j]) by {
                    assert(rest[j] == s[j]);
                }
            },
            None => {
                assert forall|j: int| 0 <= j < s.len() - 1 implies !p(#[trigger] s[j]) by {
                    assert(rest[j] == s[j]);
                }
            },
        }
    }
}

/// The position is the one before which nothing meets the condition.
pub proof fn lemma_first_index_is<T>(s: Seq<T>, p: spec_fn(T) -> bool, i: int)
    requires
        0 <= i < s.len(),
        p(s[i]),
        forall|j: int| 0 <= j < i ==> !p(#[trigger] s[j]),
    ensures
        first_index(s, p) == Some(i),
{
    lemma_first_index(s, p);
    match first_index(s, p) {
        Some(k) => {
            if k < i {
                assert(!p(s[k]));
            }
            if i < k {
                assert(!p(s[i]));
            }
        },
        None => {
            assert(!p(s[i]));
        },
    }
}

/// The first position whose item meets a condition.
pub fn position_where<T, F: Fn(&T) -> bool>(
    v: &Vec<T>,
    meets: F,
    Ghost(p): Ghost<spec_fn(T) -> bool>,
) -> (r: Option<usize>)
    requires
        forall|x: &T| meets.requires((x,)),
        forall|x: &T, b: bool| meets.ensures((x,), b) ==> b == p(*x),
    ensures
        match r {
            Some(i) => first_index(v@, p) == Some(i as int) && i < v@.len() && p(v@[i as int]),
            None => first_index(v@, p) is None && forall|j: int|
                0 <= j < v@.len() ==> !p(#[trigger] v@[j]),
        },
{
    let mut i: usize = 0;
    while i < v.len()
        invariant
            i <= v@.len(),
            forall|j: int| 0 <= j < i ==> !p(#[trigger] v@[j]),
            forall|x: &T| meets.requires((x,)),
            forall|x: &T, b: bool| meets.ensures((x,), b) ==> b == p(*x),
        decreases v@.len() - i,
    {
        if meets(&v[i]) {
            proof {
                lemma_first_index_is(v@, p, i as int);
            }
            return Some(i);
        }
        i += 1;
    }
    proof {
        lemma_first_index(v@, p);
    }
    None
}

/// Filtering and then mapping is mapping and then filtering by the condition on
/// what the items map to.
pub proof fn lemma_filter_map<T, U>(
    s: Seq<T>,
    f: spec_fn(T) -> U,
    p: spec_fn(T) -> bool,
    q: spec_fn(U) -> bool,
)
    requires
        forall|x: T| #[trigger] p(x) == q(f(x)),
    ensures
        s.filter(p).map_values(f) == s.map_values(f).filter(q),
    decreases s.len(),
{
    reveal(Seq::filter);
    if s.len() == 0 {
        assert(s.filter(p).map_values(f) =~= s.map_values(f).filter(q));
    } else {
        let rest = s.drop_last();
        lemma_filter_map(rest, f, p, q);
        assert(s.map_values(f).drop_last() =~= rest.map_values(f));
        assert(p(s.last()) == q(f(s.last())));
        if p(s.last()) {
            assert(rest.filter(p).push(s.last()).map_values(f) =~= rest.filter(p).map_values(
                f,
            ).push(f(s.last())));
        }
    }
}

/// The first position is the same in what the items map to.
pub proof fn lemma_first_index_map<T, U>(
    s: Seq<T>,
    f: spec_fn(T) -> U,
    p: spec_fn(T) -> bool,
    q: spec_fn(U) -> bool,
)
    requires
        forall|x: T| #[trigger] p(x) == q(f(x)),
    ensures
        first_index(s, p) == first_index(s.map_values(f), q),
    decreases s.len(),
{
    if s.len() > 0 {
        lemma_first_index_map(s.drop_last(), f, p, q);
        assert(s.map_values(f).drop_last() =~= s.drop_last().map_values(f));
        assert(p(s.last()) == q(f(s.last())));
    }
}

} // verus!
