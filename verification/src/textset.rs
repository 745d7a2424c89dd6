//! A set of strings.
use vstd::prelude::*;

use crate::text::{begins, holds, push_text, starts_with, texts};

verus! {

/// The members with one more, where it is not among them yet.
pub open spec fn with_member(members: Seq<Seq<char>>, text: Seq<char>) -> Seq<Seq<char>> {
    if members.contains(text) {
        members
    } else {
        members.push(text)
    }
}

/// The first `n` members, or all where there are fewer.
pub open spec fn first_members(members: Seq<Seq<char>>, n: nat) -> Seq<Seq<char>> {
    if n < members.len() {
        members.take(n as int)
    } else {
        members
    }
}

/// A set of strings, kept in the order in which they came.
pub struct TextSet {
    items: Vec<String>,
}

impl View for TextSet {
    type V = Set<Seq<char>>;

    closed spec fn view(&self) -> Set<Seq<char>> {
        texts(self.items@).to_set()
    }
}

impl TextSet {
    /// The members, in the order in which they are kept.
    pub closed spec fn members(&self) -> Seq<Seq<char>> {
        texts(self.items@)
    }

    /// Whether each member stands once.
    pub closed spec fn wf(&self) -> bool {
        texts(self.items@).no_duplicates()
    }

    /// The set is that of its members.
    pub proof fn lemma_view(&self)
        ensures
            self@ == self.members().to_set(),
    {
    }

    /// The empty set.
    pub fn new() -> (r: TextSet)
        ensures
            r@ == Set::<Seq<char>>::empty(),
            r.members() == Seq::<Seq<char>>::empty(),
            r.wf(),
    {
        let r = TextSet { items: Vec::new() };
        assert(texts(r.items@) =~= Seq::empty());
        assert(r@ =~= Set::<Seq<char>>::empty());
        r
    }

    /// Adds a member.
    pub fn insert(&mut self, text: String)
        ensures
            final(self)@ == old(self)@.insert(text@),
            final(self).members() == with_member(old(self).members(), text@),
            old(self).wf() ==> final(self).wf(),
    {
        let ghost before = texts(self.items@);
        if holds(&self.items, text.as_str()) {
            assert(self@ =~= old(self)@.insert(text@));
            return;
        }
        self.items.push(text);
        let ghost after = texts(self.items@);
        assert(after =~= before.push(text@));
        assert forall|t: Seq<char>| after.contains(t) <==> before.contains(t) || t == text@ by {
            if after.contains(t) {
                let i = choose|i: int| 0 <= i < after.len() && after[i] == t;
                if i < before.len() {
                    assert(before[i] == t);
                }
            }
            if before.contains(t) {
                let i = choose|i: int| 0 <= i < before.len() && before[i] == t;
                assert(after[i] == t);
            }
            assert(after[before.len() as int] == text@);
        }
        assert(self@ =~= old(self)@.insert(text@));
    }

    /// Whether a text is a member.
    pub fn contains(&self, text: &str) -> (r: bool)
        ensures
            r == self@.contains(text@),
    {
        holds(&self.items, text)
    }

    /// The number of members.
    pub fn len(&self) -> (n: usize)
        requires
            self.wf(),
        ensures
            n == self@.len(),
    {
        proof {
            texts(self.items@).unique_seq_to_set();
        }
        self.items.len()
    }

    /// Whether a text begins with a member.
    pub fn prefixes(&self, text: &str) -> (r: bool)
        ensures
            r == exists|p: Seq<char>| self@.contains(p) && #[trigger] begins(text@, p),
    {
        let ghost all = texts(self.items@);
        let mut i: usize = 0;
        while i < self.items.len()
            invariant
                i <= self.items@.len(),
                all == texts(self.items@),
                forall|j: int| 0 <= j < i ==> !begins(text@, #[trigger] all[j]),
            decreases self.items@.len() - i,
        {
            if starts_with(text, self.items[i].as_str()) {
                assert(all[i as int] == self.items@[i as int]@);
                assert(self@.contains(all[i as int]) && begins(text@, all[i as int]));
                return true;
            }
            i += 1;
        }
        false
    }

    /// The number of entries.
    pub fn count(&self) -> (n: usize)
        ensures
            n == self.members().len(),
    {
        self.items.len()
    }

    /// The first `n` members, in the order in which they came.
    pub fn first(&self, n: usize) -> (r: Vec<String>)
        ensures
            texts(r@) == first_members(self.members(), n as nat),
    {
        let count: usize = if n < self.items.len() { n } else { self.items.len() };
        let ghost all = texts(self.items@);
        let mut r: Vec<String> = Vec::new();
        let mut i: usize = 0;
        assert(texts(r@) =~= all.take(0));
        while i < count
            invariant
                i <= count <= self.items@.len(),
                all == texts(self.items@),
                texts(r@) == all.take(i as int),
            decreases count - i,
        {
            push_text(&mut r, self.items[i].clone());
            assert(all.take(i + 1) =~= all.take(i as int).push(all[i as int]));
            i += 1;
        }
        assert(count == all.len() ==> all.take(count as int) =~= all);
        r
    }

    /// The members, in the order in which they came.
    pub fn list(&self) -> (r: &Vec<String>)
        ensures
            texts(r@) == self.members(),
    {
        &self.items
    }
}

} // verus!
