//! Relations between texts: for each first text, the set of second texts
//! that stand in the relation to it.

use crate::names::{lemma_ascending_distinct, lemma_same_entries, lemma_same_names, NameMap, NameSet};
use vstd::prelude::*;
use vstd::string::*;

verus! {

/// A set of pairs of texts.
#[derive(Clone, Debug, PartialEq, Eq)]
pub struct Relation {
    map: NameMap<NameSet>,
}

impl View for Relation {
    type V = Set<(Seq<char>, Seq<char>)>;

    closed spec fn view(&self) -> Set<(Seq<char>, Seq<char>)> {
        Set::new(
            |p: (Seq<char>, Seq<char>)|
                self.map@.contains_key(p.0) && self.map@[p.0]@.contains(p.1),
        )
    }
}

impl Relation {
    /// The first texts are in order, and each has at least one second text.
    pub closed spec fn wf(&self) -> bool {
        &&& self.map.wf()
        &&& forall|i: int|
            0 <= i < self.map.entries().len() ==> (#[trigger] self.map.entries()[i]).wf()
                && self.map.entries()[i].names().len() > 0
    }

    /// The first texts, ascending.
    pub closed spec fn firsts(&self) -> Seq<Seq<char>> {
        self.map.names()
    }

    /// For each first text, at its position, the second texts, ascending.
    pub closed spec fn seconds(&self) -> Seq<Seq<Seq<char>>> {
        self.map.entries().map_values(|s: NameSet| s.names())
    }

    /// The empty relation.
    pub fn new() -> (r: Relation)
        ensures
            r.wf(),
            r@ == Set::<(Seq<char>, Seq<char>)>::empty(),
    {
        let r = Relation { map: NameMap::new() };
        assert(r@ =~= Set::<(Seq<char>, Seq<char>)>::empty());
        r
    }

    /// Whether the pair of `a` and `b` is in the relation.
    pub fn contains(&self, a: &str, b: &str) -> (r: bool)
        requires
            self.wf(),
        ensures
            r == self@.contains((a@, b@)),
    {
        match self.map.index_of(a) {
            Some(i) => {
                proof {
                    self.map.lemma_entries();
                }
                self.map.value_at(i).contains(b)
            },
            None => false,
        }
    }

    /// The second texts that stand in the relation to `a`, if there are any.
    pub fn image(&self, a: &str) -> (r: Option<&NameSet>)
        requires
            self.wf(),
        ensures
            r matches Some(s) ==> s.wf() && s.names().len() > 0 && forall|b: Seq<char>|
                s@.contains(b) <==> #[trigger] self@.contains((a@, b)),
            r is None ==> forall|b: Seq<char>| !#[trigger] self@.contains((a@, b)),
    {
        match self.map.index_of(a) {
            Some(i) => {
                proof {
                    self.map.lemma_entries();
                }
                Some(self.map.value_at(i))
            },
            None => None,
        }
    }

    /// Puts the pair of `a` and `b` into the relation.
    pub fn insert(&mut self, a: &str, b: &str)
        requires
            old(self).wf(),
        ensures
            final(self).wf(),
            final(self)@ == old(self)@.insert((a@, b@)),
    {
        proof {
            old(self).map.lemma_entries();
            lemma_ascending_distinct(old(self).map.names());
        }
        match self.map.index_of(a) {
            Some(i) => {
                let ghost names = self.map.names();
                let ghost before = self.map.entries();
                let set = self.map.value_at_mut(i);
                set.insert(b.to_owned());
                proof {
                    let after = final(self).map.entries();
                    final(self).map.lemma_entries();
                    assert(after[i as int]@.contains(b@));
                    assert forall|j: int| 0 <= j < after.len() implies (#[trigger] after[j]).wf()
                        && after[j].names().len() > 0 by {
                        if j == i {
                            let w = choose|w: int|
                                0 <= w < after[j].names().len() && after[j].names()[w] == b@;
                        } else {
                            assert(after[j] == before[j]);
                        }
                    }
                    assert forall|p: (Seq<char>, Seq<char>)|
                        final(self)@.contains(p) <==> old(self)@.insert((a@, b@)).contains(
                            p,
                        ) by {
                        if final(self).map@.contains_key(p.0) {
                            let j = choose|j: int| 0 <= j < names.len() && names[j] == p.0;
                            assert(final(self).map@[names[j]] == after[j]);
                            assert(old(self).map@[names[j]] == before[j]);
                        }
                    }
                    assert(final(self)@ =~= old(self)@.insert((a@, b@)));
                }
            },
            None => {
                let mut set = NameSet::new();
                set.insert(b.to_owned());
                let ghost added = set;
                self.map.insert(a.to_owned(), set);
                proof {
                    final(self).map.lemma_entries();
                    assert(added@.contains(b@));
                    let names = final(self).map.names();
                    let after = final(self).map.entries();
                    assert forall|j: int| 0 <= j < after.len() implies (#[trigger] after[j]).wf()
                        && after[j].names().len() > 0 by {
                        assert(final(self).map@.contains_key(names[j]));
                        if names[j] == a@ {
                            assert(after[j] == added);
                            let w = choose|w: int|
                                0 <= w < added.names().len() && added.names()[w] == b@;
                        } else {
                            assert(old(self).map@.contains_key(names[j]));
                            let q = choose|q: int|
                                0 <= q < old(self).map.names().len() && old(self).map.names()[q]
                                    == names[j];
                            assert(old(self).map@[old(self).map.names()[q]] == old(
                                self,
                            ).map.entries()[q]);
                        }
                    }
                    assert(final(self)@ =~= old(self)@.insert((a@, b@)));
                }
            },
        }
    }

    /// Puts the pairs of `a` and each text of `seconds` into the relation.
    pub fn insert_all(&mut self, a: &str, seconds: &NameSet)
        requires
            old(self).wf(),
            seconds.wf(),
        ensures
            final(self).wf(),
            forall|p: (Seq<char>, Seq<char>)|
                final(self)@.contains(p) <==> (old(self)@.contains(p) || (p.0 == a@
                    && seconds@.contains(p.1))),
    {
        let mut i: usize = 0;
        while i < seconds.len()
            invariant
                self.wf(),
                seconds.wf(),
                i <= seconds.names().len(),
                forall|p: (Seq<char>, Seq<char>)|
                    self@.contains(p) <==> (old(self)@.contains(p) || (p.0 == a@ && exists|j: int|
                        0 <= j < i && #[trigger] seconds.names()[j] == p.1)),
            decreases seconds.names().len() - i,
        {
            let b = seconds.name_at(i);
            self.insert(a, b.as_str());
            i += 1;
        }
    }

    /// Puts every pair of `other` into the relation.
    pub fn absorb(&mut self, other: &Relation)
        requires
            old(self).wf(),
            other.wf(),
        ensures
            final(self).wf(),
            final(self)@ == old(self)@.union(other@),
    {
        proof {
            other.map.lemma_entries();
        }
        let mut i: usize = 0;
        while i < other.map.len()
            invariant
                self.wf(),
                other.wf(),
                i <= other.map.names().len(),
                forall|k: int|
                    0 <= k < other.map.names().len() ==> other.map@.contains_key(
                        #[trigger] other.map.names()[k],
                    ) && other.map@[other.map.names()[k]] == other.map.entries()[k],
                forall|p: (Seq<char>, Seq<char>)|
                    self@.contains(p) <==> (old(self)@.contains(p) || exists|k: int|
                        0 <= k < i && #[trigger] other.map.names()[k] == p.0
                            && other.map.entries()[k]@.contains(p.1)),
            decreases other.map.names().len() - i,
        {
            let a = other.map.key_at(i);
            let seconds = other.map.value_at(i);
            self.insert_all(a.as_str(), seconds);
            i += 1;
        }
        proof {
            assert forall|p: (Seq<char>, Seq<char>)|
                final(self)@.contains(p) <==> old(self)@.union(other@).contains(p) by {
                if other@.contains(p) {
                    let k = choose|k: int|
                        0 <= k < other.map.names().len() && other.map.names()[k] == p.0;
                    assert(other.map@[other.map.names()[k]] == other.map.entries()[k]);
                }
            }
            assert(final(self)@ =~= old(self)@.union(other@));
        }
    }
}

/// Two relations in order that hold the same pairs hold them at the same places.
pub proof fn lemma_same_pairs(a: Relation, b: Relation)
    requires
        a.wf(),
        b.wf(),
        a@ == b@,
    ensures
        a.firsts() == b.firsts(),
        a.seconds() == b.seconds(),
{
    a.map.lemma_entries();
    b.map.lemma_entries();
    assert forall|k: Seq<char>| a.map@.dom().contains(k) <==> b.map@.dom().contains(k) by {
        if a.map@.dom().contains(k) {
            let i = choose|i: int| 0 <= i < a.map.names().len() && a.map.names()[i] == k;
            let image = a.map.entries()[i];
            assert(a.map@[a.map.names()[i]] == image);
            assert(image.wf() && image.names().len() > 0);
            assert(image.names().contains(image.names()[0]));
            assert(a@.contains((k, image.names()[0])));
            assert(b@.contains((k, image.names()[0])));
        }
        if b.map@.dom().contains(k) {
            let i = choose|i: int| 0 <= i < b.map.names().len() && b.map.names()[i] == k;
            let image = b.map.entries()[i];
            assert(b.map@[b.map.names()[i]] == image);
            assert(image.wf() && image.names().len() > 0);
            assert(image.names().contains(image.names()[0]));
            assert(b@.contains((k, image.names()[0])));
            assert(a@.contains((k, image.names()[0])));
        }
    }
    assert(a.map@.dom() =~= b.map@.dom());
    lemma_same_entries(a.map, b.map);
    assert(a.seconds().len() == b.seconds().len());
    assert forall|i: int| 0 <= i < a.seconds().len() implies a.seconds()[i] == b.seconds()[i] by {
        let k = a.map.names()[i];
        let x = a.map.entries()[i];
        let y = b.map.entries()[i];
        assert(a.map@[k] == x);
        assert(b.map@[b.map.names()[i]] == y);
        assert forall|t: Seq<char>| x@.contains(t) <==> y@.contains(t) by {
            assert(a@.contains((k, t)) <==> x@.contains(t));
            assert(b@.contains((k, t)) <==> y@.contains(t));
        }
        assert(x@ =~= y@);
        lemma_same_names(x, y);
    }
    assert(a.seconds() =~= b.seconds());
}

} // verus!
