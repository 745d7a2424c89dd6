//! Where identifiers come from.
use vstd::prelude::*;

use crate::telemetry::fresh_id;
use crate::text::{lemma_texts_remove, texts};

verus! {

/// Hands out identifiers: first those that were prepared, then random ones.
pub struct IdSource {
    prepared: Vec<String>,
    handed: Ghost<Seq<Seq<char>>>,
}

impl IdSource {
    /// What was handed out so far.
    pub closed spec fn handed(&self) -> Seq<Seq<char>> {
        self.handed@
    }

    /// What was prepared and not handed out yet.
    pub closed spec fn prepared(&self) -> Seq<Seq<char>> {
        texts(self.prepared@)
    }

    /// A source of random identifiers.
    pub fn random() -> (r: IdSource)
        ensures
            r.handed().len() == 0,
            r.prepared().len() == 0,
    {
        IdSource { prepared: Vec::new(), handed: Ghost(Seq::empty()) }
    }

    /// A source that first hands out some identifiers.
    pub fn of(prepared: Vec<String>) -> (r: IdSource)
        ensures
            r.handed().len() == 0,
            r.prepared() == texts(prepared@),
    {
        IdSource { prepared, handed: Ghost(Seq::empty()) }
    }

    /// Hands out an identifier.
    pub fn draw(&mut self) -> (id: String)
        ensures
            drawn(*old(self), *final(self)),
            used(*old(self), *final(self)) == seq![id@],
    {
        let ghost before = *self;
        let id = if self.prepared.len() > 0 {
            let id = self.prepared.remove(0);
            proof {
                lemma_texts_remove(before.prepared@, 0);
                assert(before.prepared().skip(1) =~= before.prepared().remove(0));
                assert(before.prepared()[0] == id@);
            }
            id
        } else {
            fresh_id()
        };
        self.handed = Ghost(before.handed@.push(id@));
        proof {
            assert(used(before, *self) =~= seq![id@]);
            assert(self.handed().take(before.handed().len() as int) =~= before.handed());
            assert(self.prepared() =~= if 1 <= before.prepared().len() {
                before.prepared().skip(1)
            } else {
                Seq::empty()
            });
        }
        id
    }
}

/// What a source handed out between two moments.
pub open spec fn used(before: IdSource, after: IdSource) -> Seq<Seq<char>> {
    after.handed().skip(before.handed().len() as int)
}

/// Whether a source only handed out identifiers between two moments: the prepared
/// ones first.
pub open spec fn drawn(before: IdSource, after: IdSource) -> bool {
    let ids = used(before, after);
    &&& before.handed().len() <= after.handed().len()
    &&& after.handed().take(before.handed().len() as int) == before.handed()
    &&& forall|i: int|
        0 <= i < ids.len() && i < before.prepared().len() ==> #[trigger] ids[i]
            == before.prepared()[i]
    &&& after.prepared() == if ids.len() <= before.prepared().len() {
        before.prepared().skip(ids.len() as int)
    } else {
        Seq::empty()
    }
}

/// Nothing was handed out between a moment and itself.
pub proof fn lemma_nothing_drawn(source: IdSource)
    ensures
        drawn(source, source),
        used(source, source) == Seq::<Seq<char>>::empty(),
{
    assert(used(source, source) =~= Seq::<Seq<char>>::empty());
    assert(source.handed().take(source.handed().len() as int) =~= source.handed());
    assert(source.prepared().skip(0) =~= source.prepared());
}

/// What was handed out before and after a moment was handed out in all.
pub proof fn lemma_drawn_twice(before: IdSource, between: IdSource, after: IdSource)
    requires
        drawn(before, between),
        drawn(between, after),
    ensures
        drawn(before, after),
        used(before, after) == used(before, between) + used(between, after),
{
    let first = used(before, between);
    let second = used(between, after);
    let all = used(before, after);
    assert(between.handed() =~= before.handed() + first);
    assert(after.handed() =~= between.handed() + second);
    assert(all =~= first + second);
    assert(after.handed().take(before.handed().len() as int) =~= before.handed());
    assert forall|i: int| 0 <= i < all.len() && i < before.prepared().len() implies
        #[trigger] all[i] == before.prepared()[i] by {
        if i < first.len() {
            assert(first[i] == before.prepared()[i]);
        } else {
            assert(second[i - first.len()] == between.prepared()[i - first.len()]);
        }
    }
    assert(after.prepared() =~= if all.len() <= before.prepared().len() {
        before.prepared().skip(all.len() as int)
    } else {
        Seq::empty()
    });
}

} // verus!
