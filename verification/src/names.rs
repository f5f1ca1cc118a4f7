//! Sets and maps keyed by text and kept in ascending key order, so that a
//! collection's content is fixed by what it holds and lookups can bisect.

pub use crate::text::names_of;
use crate::text::{compare, lemma_lex_irreflexive, lemma_lex_total, lemma_lex_transitive, lex_lt, Order};
use vstd::prelude::*;

verus! {

/// Strictly ascending: each entry comes before every later one.
pub open spec fn ascending(s: Seq<Seq<char>>) -> bool {
    forall|i: int, j: int| 0 <= i < j < s.len() ==> lex_lt(#[trigger] s[i], #[trigger] s[j])
}

/// Some position at which `k` stands in `s`.
pub open spec fn position_of(s: Seq<Seq<char>>, k: Seq<char>) -> int {
    choose|i: int| 0 <= i < s.len() && s[i] == k
}

/// An ascending sequence holds nothing twice.
pub proof fn lemma_ascending_distinct(s: Seq<Seq<char>>)
    requires
        ascending(s),
    ensures
        s.no_duplicates(),
        forall|i: int| 0 <= i < s.len() ==> position_of(s, #[trigger] s[i]) == i,
{
    assert forall|i: int, j: int| 0 <= i < s.len() && 0 <= j < s.len() && i != j implies s[i]
        != s[j] by {
        if i < j {
            lemma_lex_irreflexive(s[i]);
        } else {
            lemma_lex_irreflexive(s[j]);
        }
    }
    assert forall|i: int| 0 <= i < s.len() implies position_of(s, #[trigger] s[i]) == i by {
        let p = position_of(s, s[i]);
        assert(0 <= p < s.len() && s[p] == s[i]);
    }
}

/// Two ascending sequences that hold the same texts are the same sequence.
pub proof fn lemma_ascending_unique(a: Seq<Seq<char>>, b: Seq<Seq<char>>)
    requires
        ascending(a),
        ascending(b),
        forall|k: Seq<char>| a.contains(k) <==> b.contains(k),
    ensures
        a == b,
    decreases a.len(),
{
    lemma_ascending_distinct(a);
    lemma_ascending_distinct(b);
    if a.len() == 0 {
        if b.len() > 0 {
            assert(b.contains(b[0]));
        }
        assert(a =~= b);
    } else if b.len() == 0 {
        assert(a.contains(a[0]));
    } else {
        // The least text of each is its first, so the firsts agree.
        assert(a.contains(a[0]));
        assert(b.contains(b[0]));
        let i = choose|i: int| 0 <= i < b.len() && b[i] == a[0];
        let j = choose|j: int| 0 <= j < a.len() && a[j] == b[0];
        if i != 0 {
            // b[0] < b[i] == a[0] <= a[j] == b[0]
            if j != 0 {
                lemma_lex_transitive(b[0], a[0], a[j]);
            }
            lemma_lex_irreflexive(b[0]);
            assert(false);
        }
        let ra = a.drop_first();
        let rb = b.drop_first();
        assert forall|k: Seq<char>| ra.contains(k) <==> rb.contains(k) by {
            if ra.contains(k) {
                let p = choose|p: int| 0 <= p < ra.len() && ra[p] == k;
                assert(a[p + 1] == k);
                assert(a.contains(k));
                let q = choose|q: int| 0 <= q < b.len() && b[q] == k;
                assert(q != 0);
                assert(rb[q - 1] == k);
            }
            if rb.contains(k) {
                let p = choose|p: int| 0 <= p < rb.len() && rb[p] == k;
                assert(b[p + 1] == k);
                assert(b.contains(k));
                let q = choose|q: int| 0 <= q < a.len() && a[q] == k;
                assert(q != 0);
                assert(ra[q - 1] == k);
            }
        }
        assert(ascending(ra)) by {
            assert forall|x: int, y: int| 0 <= x < y < ra.len() implies lex_lt(
                #[trigger] ra[x],
                #[trigger] ra[y],
            ) by {
                assert(lex_lt(a[x + 1], a[y + 1]));
            }
        }
        assert(ascending(rb)) by {
            assert forall|x: int, y: int| 0 <= x < y < rb.len() implies lex_lt(
                #[trigger] rb[x],
                #[trigger] rb[y],
            ) by {
                assert(lex_lt(b[x + 1], b[y + 1]));
            }
        }
        lemma_ascending_unique(ra, rb);
        assert(a =~= seq![a[0]] + ra);
        assert(b =~= seq![b[0]] + rb);
    }
}

/// Where `key` stands among ascending `keys`, or where it would be put.
pub fn locate(keys: &Vec<String>, key: &str) -> (r: (usize, bool))
    requires
        ascending(names_of(keys@)),
    ensures
        r.0 <= keys.len(),
        r.1 ==> r.0 < keys.len() && names_of(keys@)[r.0 as int] == key@,
        r.1 == names_of(keys@).contains(key@),
        forall|i: int| 0 <= i < r.0 ==> lex_lt(#[trigger] names_of(keys@)[i], key@),
        forall|i: int|
            r.0 <= i < keys.len() && !(r.1 && i == r.0) ==> lex_lt(
                key@,
                #[trigger] names_of(keys@)[i],
            ),
{
    let ghost names = names_of(keys@);
    let mut lo: usize = 0;
    let mut hi: usize = keys.len();
    while lo < hi
        invariant
            names == names_of(keys@),
            ascending(names),
            lo <= hi <= keys.len(),
            forall|i: int| 0 <= i < lo ==> lex_lt(#[trigger] names[i], key@),
            forall|i: int| hi <= i < keys.len() ==> lex_lt(key@, #[trigger] names[i]),
        decreases hi - lo,
    {
        let mid: usize = lo + (hi - lo) / 2;
        let order = compare(keys[mid].as_str(), key);
        assert(keys[mid as int]@ == names[mid as int]);
        match order {
            Order::Equal => {
                proof {
                    assert(names[mid as int] == key@);
                    assert(names.contains(key@));
                }
                return (mid, true);
            },
            Order::Less => {
                proof {
                    assert forall|i: int| 0 <= i < mid + 1 implies lex_lt(
                        #[trigger] names[i],
                        key@,
                    ) by {
                        if i < mid {
                            lemma_lex_transitive(names[i], names[mid as int], key@);
                        }
                    }
                }
                lo = mid + 1;
            },
            Order::Greater => {
                proof {
                    lemma_lex_total(names[mid as int], key@);
                    assert forall|i: int| mid <= i < keys.len() implies lex_lt(
                        key@,
                        #[trigger] names[i],
                    ) by {
                        if mid < i {
                            lemma_lex_transitive(key@, names[mid as int], names[i]);
                        }
                    }
                }
                hi = mid;
            },
        }
    }
    proof {
        if names.contains(key@) {
            let p = choose|p: int| 0 <= p < names.len() && names[p] == key@;
            lemma_lex_irreflexive(key@);
            assert(false);
        }
    }
    (lo, false)
}

/// A set of texts.
#[derive(Clone, Debug, Default, PartialEq, Eq)]
pub struct NameSet {
    items: Vec<String>,
}

impl View for NameSet {
    type V = Set<Seq<char>>;

    open spec fn view(&self) -> Set<Seq<char>> {
        Set::new(|k: Seq<char>| self.names().contains(k))
    }
}

impl NameSet {
    /// The texts held, in ascending order.
    pub closed spec fn names(&self) -> Seq<Seq<char>> {
        names_of(self.items@)
    }

    /// The set keeps its texts strictly ascending.
    pub open spec fn wf(&self) -> bool {
        ascending(self.names())
    }

    /// The empty set.
    pub fn new() -> (s: NameSet)
        ensures
            s.wf(),
            s.names() == Seq::<Seq<char>>::empty(),
            s@ == Set::<Seq<char>>::empty(),
    {
        let s = NameSet { items: Vec::new() };
        assert(s.names() =~= Seq::<Seq<char>>::empty());
        assert(s@ =~= Set::<Seq<char>>::empty());
        s
    }

    /// How many texts the set holds.
    pub fn len(&self) -> (n: usize)
        ensures
            n == self.names().len(),
    {
        self.items.len()
    }

    /// Whether the set holds nothing.
    pub fn is_empty(&self) -> (b: bool)
        requires
            self.wf(),
        ensures
            b == (self.names().len() == 0),
            b == (self@ == Set::<Seq<char>>::empty()),
    {
        proof {
            if self.names().len() > 0 {
                assert(self.names().contains(self.names()[0]));
                assert(self@.contains(self.names()[0]));
            } else {
                assert(self@ =~= Set::<Seq<char>>::empty());
            }
        }
        self.items.len() == 0
    }

    /// The text at position `i` of the ascending order.
    pub fn name_at(&self, i: usize) -> (name: &String)
        requires
            i < self.names().len(),
        ensures
            name@ == self.names()[i as int],
    {
        &self.items[i]
    }

    /// Whether `name` is in the set.
    pub fn contains(&self, name: &str) -> (b: bool)
        requires
            self.wf(),
        ensures
            b == self@.contains(name@),
    {
        let (_, found) = locate(&self.items, name);
        found
    }

    /// Puts `name` into the set.
    pub fn insert(&mut self, name: String)
        requires
            old(self).wf(),
        ensures
            final(self).wf(),
            final(self)@ == old(self)@.insert(name@),
    {
        let (idx, found) = locate(&self.items, name.as_str());
        if !found {
            let ghost before = self.names();
            self.items.insert(idx, name);
            proof {
                let after = self.names();
                assert(after =~= before.insert(idx as int, name@));
                lemma_insert_ascending(before, idx as int, name@);
                assert(final(self)@ =~= old(self)@.insert(name@)) by {
                    lemma_insert_contains(before, idx as int, name@);
                }
            }
        } else {
            assert(final(self)@ =~= old(self)@.insert(name@));
        }
    }

    /// Puts every text of `other` into the set.
    pub fn absorb(&mut self, other: &NameSet)
        requires
            old(self).wf(),
            other.wf(),
        ensures
            final(self).wf(),
            final(self)@ == old(self)@.union(other@),
    {
        let mut i: usize = 0;
        while i < other.items.len()
            invariant
                self.wf(),
                other.wf(),
                i <= other.items.len(),
                forall|k: Seq<char>|
                    self@.contains(k) <==> (old(self)@.contains(k) || exists|j: int|
                        0 <= j < i && #[trigger] other.names()[j] == k),
            decreases other.items.len() - i,
        {
            let name = other.items[i].clone();
            assert(name@ == other.names()[i as int]);
            self.insert(name);
            i += 1;
        }
        assert(final(self)@ =~= old(self)@.union(other@));
    }

    /// Takes `name` out of the set.
    pub fn remove(&mut self, name: &str)
        requires
            old(self).wf(),
        ensures
            final(self).wf(),
            final(self)@ == old(self)@.remove(name@),
    {
        let (idx, found) = locate(&self.items, name);
        if found {
            let ghost before = self.names();
            self.items.remove(idx);
            proof {
                let after = self.names();
                assert(after =~= before.remove(idx as int));
                lemma_ascending_distinct(before);
                assert forall|k: Seq<char>| after.contains(k) <==> (before.contains(k) && k
                    != name@) by {
                    if after.contains(k) {
                        let p = choose|p: int| 0 <= p < after.len() && after[p] == k;
                        if p < idx {
                            assert(before[p] == k);
                        } else {
                            assert(before[p + 1] == k);
                        }
                    }
                    if before.contains(k) && k != name@ {
                        let p = choose|p: int| 0 <= p < before.len() && before[p] == k;
                        if p < idx {
                            assert(after[p] == k);
                        } else {
                            assert(after[p - 1] == k);
                        }
                    }
                }
                assert(final(self)@ =~= old(self)@.remove(name@));
            }
        } else {
            assert(final(self)@ =~= old(self)@.remove(name@));
        }
    }

    /// Takes every text of `other` out of the set.
    pub fn subtract(&mut self, other: &NameSet)
        requires
            old(self).wf(),
            other.wf(),
        ensures
            final(self).wf(),
            final(self)@ == old(self)@.difference(other@),
    {
        let mut i: usize = 0;
        while i < other.items.len()
            invariant
                self.wf(),
                other.wf(),
                i <= other.items.len(),
                forall|k: Seq<char>|
                    self@.contains(k) <==> (old(self)@.contains(k) && !exists|j: int|
                        0 <= j < i && #[trigger] other.names()[j] == k),
            decreases other.items.len() - i,
        {
            assert(other.items[i as int]@ == other.names()[i as int]);
            self.remove(other.items[i].as_str());
            i += 1;
        }
        assert(final(self)@ =~= old(self)@.difference(other@));
    }

    /// The texts of the set, ascending.
    pub fn to_vec(&self) -> (out: Vec<String>)
        ensures
            names_of(out@) == self.names(),
    {
        let mut out: Vec<String> = Vec::new();
        let mut i: usize = 0;
        while i < self.items.len()
            invariant
                i <= self.items.len(),
                out.len() == i,
                forall|j: int| 0 <= j < i ==> #[trigger] out[j]@ == self.items[j]@,
            decreases self.items.len() - i,
        {
            out.push(self.items[i].clone());
            i += 1;
        }
        assert(names_of(out@) =~= self.names());
        out
    }
}

/// The set of the texts that `items` holds.
pub fn name_set_of(items: &Vec<String>) -> (s: NameSet)
    ensures
        s.wf(),
        forall|t: Seq<char>| s@.contains(t) <==> names_of(items@).contains(t),
{
    let mut s = NameSet::new();
    let mut i: usize = 0;
    while i < items.len()
        invariant
            s.wf(),
            i <= items.len(),
            forall|t: Seq<char>|
                s@.contains(t) <==> exists|j: int| 0 <= j < i && #[trigger] names_of(items@)[j] == t,
        decreases items.len() - i,
    {
        let item = items[i].clone();
        assert(item@ == names_of(items@)[i as int]);
        s.insert(item);
        i += 1;
    }
    s
}

/// Inserting a text at the place `locate` gives keeps the order.
pub proof fn lemma_insert_ascending(s: Seq<Seq<char>>, idx: int, k: Seq<char>)
    requires
        ascending(s),
        0 <= idx <= s.len(),
        forall|i: int| 0 <= i < idx ==> lex_lt(#[trigger] s[i], k),
        forall|i: int| idx <= i < s.len() ==> lex_lt(k, #[trigger] s[i]),
    ensures
        ascending(s.insert(idx, k)),
{
    let t = s.insert(idx, k);
    assert forall|i: int, j: int| 0 <= i < j < t.len() implies lex_lt(
        #[trigger] t[i],
        #[trigger] t[j],
    ) by {
        if j < idx {
            assert(t[i] == s[i] && t[j] == s[j]);
        } else if j == idx {
            assert(t[i] == s[i]);
        } else if i < idx {
            assert(t[i] == s[i] && t[j] == s[j - 1]);
            if i < j - 1 {
            } else {
                lemma_lex_transitive(s[i], k, s[j - 1]);
            }
            lemma_lex_transitive(s[i], k, s[j - 1]);
        } else if i == idx {
            assert(t[j] == s[j - 1]);
        } else {
            assert(t[i] == s[i - 1] && t[j] == s[j - 1]);
        }
    }
}

/// What a sequence holds after an insertion.
pub proof fn lemma_insert_contains(s: Seq<Seq<char>>, idx: int, k: Seq<char>)
    requires
        0 <= idx <= s.len(),
    ensures
        forall|x: Seq<char>| s.insert(idx, k).contains(x) <==> (s.contains(x) || x == k),
{
    let t = s.insert(idx, k);
    assert forall|x: Seq<char>| t.contains(x) <==> (s.contains(x) || x == k) by {
        if t.contains(x) {
            let p = choose|p: int| 0 <= p < t.len() && t[p] == x;
            if p < idx {
                assert(s[p] == x);
            } else if p > idx {
                assert(s[p - 1] == x);
            }
        }
        if s.contains(x) {
            let p = choose|p: int| 0 <= p < s.len() && s[p] == x;
            if p < idx {
                assert(t[p] == x);
            } else {
                assert(t[p + 1] == x);
            }
        }
        if x == k {
            assert(t[idx] == x);
        }
    }
}

} // verus!

verus! {

/// A map from texts to values.
#[derive(Clone, Debug, Default, PartialEq, Eq)]
pub struct NameMap<V> {
    keys: Vec<String>,
    values: Vec<V>,
}

impl<V> View for NameMap<V> {
    type V = Map<Seq<char>, V>;

    open spec fn view(&self) -> Map<Seq<char>, V> {
        Map::new(
            |k: Seq<char>| self.names().contains(k),
            |k: Seq<char>| self.entries()[position_of(self.names(), k)],
        )
    }
}

impl<V> NameMap<V> {
    /// The keys, in ascending order.
    pub closed spec fn names(&self) -> Seq<Seq<char>> {
        names_of(self.keys@)
    }

    /// The values, each at the position of its key.
    pub closed spec fn entries(&self) -> Seq<V> {
        self.values@
    }

    /// Every key has its value, and the keys are strictly ascending.
    pub open spec fn wf(&self) -> bool {
        &&& self.names().len() == self.entries().len()
        &&& ascending(self.names())
    }

    /// The value at each position is the one the map gives for the key there.
    pub proof fn lemma_entries(&self)
        requires
            self.wf(),
        ensures
            forall|i: int|
                0 <= i < self.names().len() ==> self@.contains_key(#[trigger] self.names()[i])
                    && self@[self.names()[i]] == self.entries()[i],
            self@.dom().finite(),
            self@.dom().len() == self.names().len(),
    {
        let names = self.names();
        lemma_ascending_distinct(names);
        assert forall|i: int| 0 <= i < names.len() implies self@.contains_key(#[trigger] names[i])
            && self@[names[i]] == self.entries()[i] by {
            assert(names.contains(names[i]));
        }
        assert(self@.dom() =~= names.to_set());
        names.unique_seq_to_set();
    }

    /// The empty map.
    pub fn new() -> (m: NameMap<V>)
        ensures
            m.wf(),
            m.names() == Seq::<Seq<char>>::empty(),
            m@ == Map::<Seq<char>, V>::empty(),
    {
        let m = NameMap { keys: Vec::new(), values: Vec::new() };
        assert(m.names() =~= Seq::<Seq<char>>::empty());
        assert(m@ =~= Map::<Seq<char>, V>::empty());
        m
    }

    /// How many keys the map holds.
    pub fn len(&self) -> (n: usize)
        ensures
            n == self.names().len(),
    {
        self.keys.len()
    }

    /// The key at position `i` of the ascending order.
    pub fn key_at(&self, i: usize) -> (key: &String)
        requires
            i < self.names().len(),
        ensures
            key@ == self.names()[i as int],
    {
        &self.keys[i]
    }

    /// The value at position `i` of the ascending key order.
    pub fn value_at(&self, i: usize) -> (value: &V)
        requires
            self.wf(),
            i < self.names().len(),
        ensures
            *value == self.entries()[i as int],
            self@.contains_key(self.names()[i as int]),
            *value == self@[self.names()[i as int]],
    {
        proof {
            self.lemma_entries();
        }
        &self.values[i]
    }

    /// Whether the map has a value for `key`.
    pub fn contains_key(&self, key: &str) -> (b: bool)
        requires
            self.wf(),
        ensures
            b == self@.contains_key(key@),
    {
        let (_, found) = locate(&self.keys, key);
        found
    }

    /// The position of `key` in the ascending order, if the map holds it.
    pub fn index_of(&self, key: &str) -> (r: Option<usize>)
        requires
            self.wf(),
        ensures
            r is Some <==> self@.contains_key(key@),
            r matches Some(i) ==> i < self.names().len() && self.names()[i as int] == key@,
    {
        let (idx, found) = locate(&self.keys, key);
        if found {
            Some(idx)
        } else {
            None
        }
    }

    /// The value for `key`, if the map holds one.
    pub fn get(&self, key: &str) -> (r: Option<&V>)
        requires
            self.wf(),
        ensures
            r is Some <==> self@.contains_key(key@),
            r matches Some(v) ==> *v == self@[key@],
    {
        let (idx, found) = locate(&self.keys, key);
        if found {
            proof {
                self.lemma_entries();
            }
            Some(&self.values[idx])
        } else {
            None
        }
    }

    /// The value at position `i`, to be changed in place.
    pub fn value_at_mut(&mut self, i: usize) -> (value: &mut V)
        requires
            old(self).wf(),
            i < old(self).names().len(),
        ensures
            *value == old(self).entries()[i as int],
            final(self).names() == old(self).names(),
            final(self).entries() == old(self).entries().update(i as int, *final(value)),
            final(self).wf(),
    {
        &mut self.values[i]
    }

    /// Gives `key` the value `value`, in place of any it had.
    pub fn insert(&mut self, key: String, value: V)
        requires
            old(self).wf(),
        ensures
            final(self).wf(),
            final(self)@ == old(self)@.insert(key@, value),
    {
        let (idx, found) = locate(&self.keys, key.as_str());
        let ghost names0 = self.names();
        let ghost entries0 = self.entries();
        proof {
            old(self).lemma_entries();
            lemma_ascending_distinct(names0);
        }
        if found {
            self.values[idx] = value;
            proof {
                final(self).lemma_entries();
                assert(final(self).names() == names0);
                assert forall|k: Seq<char>| final(self)@.contains_key(k) implies #[trigger] final(self)@[k] == old(self)@.insert(key@, value)[k] by {
                    let p = position_of(names0, k);
                    assert(names0[p] == k);
                }
                assert(final(self)@ =~= old(self)@.insert(key@, value));
            }
        } else {
            self.keys.insert(idx, key);
            self.values.insert(idx, value);
            proof {
                let names1 = final(self).names();
                let entries1 = final(self).entries();
                assert(names1 =~= names0.insert(idx as int, key@));
                assert(entries1 =~= entries0.insert(idx as int, value));
                lemma_insert_ascending(names0, idx as int, key@);
                lemma_insert_contains(names0, idx as int, key@);
                final(self).lemma_entries();
                assert forall|k: Seq<char>| final(self)@.contains_key(k) implies #[trigger] final(self)@[k] == old(self)@.insert(key@, value)[k] by {
                    let p = position_of(names1, k);
                    assert(names1[p] == k);
                    if p < idx {
                        assert(names0[p] == k);
                    } else if p > idx {
                        assert(names0[p - 1] == k);
                    }
                }
                assert(final(self)@ =~= old(self)@.insert(key@, value));
            }
        }
    }
}

/// Two sets in order that hold the same texts hold them at the same places.
pub proof fn lemma_same_names(a: NameSet, b: NameSet)
    requires
        a.wf(),
        b.wf(),
        a@ == b@,
    ensures
        a.names() == b.names(),
{
    assert forall|k: Seq<char>| a.names().contains(k) <==> b.names().contains(k) by {
        assert(a@.contains(k) <==> a.names().contains(k));
        assert(b@.contains(k) <==> b.names().contains(k));
    }
    lemma_ascending_unique(a.names(), b.names());
}

/// Two maps in order with the same keys hold them at the same places, and
/// two that agree on the values as well hold those at the same places too.
pub proof fn lemma_same_entries<V>(a: NameMap<V>, b: NameMap<V>)
    requires
        a.wf(),
        b.wf(),
        a@.dom() == b@.dom(),
    ensures
        a.names() == b.names(),
        a@ == b@ ==> a.entries() == b.entries(),
{
    assert forall|k: Seq<char>| a.names().contains(k) <==> b.names().contains(k) by {
        assert(a@.dom().contains(k) <==> a.names().contains(k));
        assert(b@.dom().contains(k) <==> b.names().contains(k));
    }
    lemma_ascending_unique(a.names(), b.names());
    if a@ == b@ {
        a.lemma_entries();
        b.lemma_entries();
        assert(a.entries().len() == b.entries().len());
        assert forall|i: int| 0 <= i < a.entries().len() implies a.entries()[i]
            == b.entries()[i] by {
            assert(a@[a.names()[i]] == a.entries()[i]);
            assert(b@[b.names()[i]] == b.entries()[i]);
        }
        assert(a.entries() =~= b.entries());
    }
}

} // verus!
