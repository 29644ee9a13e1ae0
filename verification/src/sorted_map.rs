//! A map kept sorted by key, and the keys it can have.
use crate::text::{compare, precedes, precedes_irreflexive, precedes_transitive, Side};
use vstd::prelude::*;
use vstd::string::*;

verus! {

/// A type with a strict total order.
pub trait Key: Sized {
    /// What a key is, mathematically.
    type M;

    /// What this key is.
    spec fn model(&self) -> Self::M;

    /// `a` comes before `b`.
    spec fn before(a: Self::M, b: Self::M) -> bool;

    /// Nothing comes before itself.
    proof fn before_irreflexive(a: Self::M)
        ensures
            !Self::before(a, a),
    ;

    /// The order is transitive.
    proof fn before_transitive(a: Self::M, b: Self::M, c: Self::M)
        requires
            Self::before(a, b),
            Self::before(b, c),
        ensures
            Self::before(a, c),
    ;

    /// How this key stands to another.
    fn order(&self, other: &Self) -> (r: Side)
        ensures
            r == Side::Before <==> Self::before(self.model(), other.model()),
            r == Side::Same <==> self.model() == other.model(),
            r == Side::After <==> Self::before(other.model(), self.model()),
    ;
}

/// Strings come in dictionary order.
impl Key for String {
    type M = Seq<char>;

    open spec fn model(&self) -> Seq<char> {
        self@
    }

    open spec fn before(a: Seq<char>, b: Seq<char>) -> bool {
        precedes(a, b)
    }

    proof fn before_irreflexive(a: Seq<char>) {
        precedes_irreflexive(a);
    }

    proof fn before_transitive(a: Seq<char>, b: Seq<char>, c: Seq<char>) {
        precedes_transitive(a, b, c);
    }

    fn order(&self, other: &String) -> (r: Side) {
        compare(self.as_str(), other.as_str())
    }
}

impl Key for u32 {
    type M = u32;

    open spec fn model(&self) -> u32 {
        *self
    }

    open spec fn before(a: u32, b: u32) -> bool {
        a < b
    }

    proof fn before_irreflexive(a: u32) {
    }

    proof fn before_transitive(a: u32, b: u32, c: u32) {
    }

    fn order(&self, other: &u32) -> (r: Side) {
        if *self < *other {
            Side::Before
        } else if *self == *other {
            Side::Same
        } else {
            Side::After
        }
    }
}

impl Key for i64 {
    type M = i64;

    open spec fn model(&self) -> i64 {
        *self
    }

    open spec fn before(a: i64, b: i64) -> bool {
        a < b
    }

    proof fn before_irreflexive(a: i64) {
    }

    proof fn before_transitive(a: i64, b: i64, c: i64) {
    }

    fn order(&self, other: &i64) -> (r: Side) {
        if *self < *other {
            Side::Before
        } else if *self == *other {
            Side::Same
        } else {
            Side::After
        }
    }
}

/// Pairs come in the order of their first parts, then of their second.
impl<A: Key, B: Key> Key for (A, B) {
    type M = (A::M, B::M);

    open spec fn model(&self) -> (A::M, B::M) {
        (self.0.model(), self.1.model())
    }

    open spec fn before(a: (A::M, B::M), b: (A::M, B::M)) -> bool {
        A::before(a.0, b.0) || (a.0 == b.0 && B::before(a.1, b.1))
    }

    proof fn before_irreflexive(a: (A::M, B::M)) {
        A::before_irreflexive(a.0);
        B::before_irreflexive(a.1);
    }

    proof fn before_transitive(a: (A::M, B::M), b: (A::M, B::M), c: (A::M, B::M)) {
        if A::before(a.0, b.0) && A::before(b.0, c.0) {
            A::before_transitive(a.0, b.0, c.0);
        }
        if B::before(a.1, b.1) && B::before(b.1, c.1) {
            B::before_transitive(a.1, b.1, c.1);
        }
    }

    fn order(&self, other: &(A, B)) -> (r: Side) {
        proof {
            A::before_irreflexive(self.0.model());
            B::before_irreflexive(self.1.model());
        }
        match self.0.order(&other.0) {
            Side::Same => self.1.order(&other.1),
            s => s,
        }
    }
}

/// A map whose entries are held in the order of their keys, no key twice.
#[derive(Clone, Debug)]
pub struct SortedMap<K, V> {
    entries: Vec<(K, V)>,
}

/// A map keyed by name.
pub type NameMap<V> = SortedMap<String, V>;

impl<K: Key, V> SortedMap<K, V> {
    /// The number of entries.
    pub closed spec fn size(&self) -> nat {
        self.entries@.len()
    }

    /// The key of the entry at position `i` in order.
    pub closed spec fn key_at(&self, i: int) -> K::M {
        self.entries@[i].0.model()
    }

    /// The value of the entry at position `i` in order.
    pub closed spec fn value_at(&self, i: int) -> V {
        self.entries@[i].1
    }

    /// The keys are in strictly increasing order.
    pub open spec fn wf(&self) -> bool {
        forall|i: int, j: int|
            0 <= i < j < self.size() ==> K::before(#[trigger] self.key_at(i), #[trigger] self.key_at(j))
    }

    /// Whether some entry has the key `k`.
    pub open spec fn has(&self, k: K::M) -> bool {
        exists|i: int| 0 <= i < self.size() && #[trigger] self.key_at(i) == k
    }

    /// The position of the entry with key `k`, when there is one.
    pub open spec fn place(&self, k: K::M) -> int {
        choose|i: int| 0 <= i < self.size() && #[trigger] self.key_at(i) == k
    }

    /// The entries as a mathematical map.
    pub open spec fn view(&self) -> Map<K::M, V> {
        Map::new(|k: K::M| self.has(k), |k: K::M| self.value_at(self.place(k)))
    }

    /// In a well-formed map a key is found at one position only.
    pub proof fn lemma_unique(&self, i: int, j: int)
        requires
            self.wf(),
            0 <= i < self.size(),
            0 <= j < self.size(),
            self.key_at(i) == self.key_at(j),
        ensures
            i == j,
    {
        K::before_irreflexive(self.key_at(i));
    }

    /// The entry at a position is what the map holds under its key.
    pub proof fn lemma_entry(&self, i: int)
        requires
            self.wf(),
            0 <= i < self.size(),
        ensures
            self@.contains_key(self.key_at(i)),
            self@[self.key_at(i)] == self.value_at(i),
            self.place(self.key_at(i)) == i,
    {
        assert(self.has(self.key_at(i)));
        self.lemma_unique(i, self.place(self.key_at(i)));
    }

    /// The keys in order.
    pub open spec fn keys(&self) -> Seq<K::M> {
        Seq::new(self.size(), |i: int| self.key_at(i))
    }

    /// There are as many keys as entries.
    pub proof fn lemma_size(&self)
        requires
            self.wf(),
        ensures
            self@.dom().finite(),
            self@.dom().len() == self.size(),
    {
        let ks = self.keys();
        assert forall|i: int, j: int| 0 <= i < ks.len() && 0 <= j < ks.len() && i != j implies ks[i]
            != ks[j] by {
            if ks[i] == ks[j] {
                self.lemma_unique(i, j);
            }
        }
        ks.unique_seq_to_set();
        assert forall|k: K::M| #[trigger] ks.to_set().contains(k) == self@.contains_key(k) by {
            if self.has(k) {
                assert(ks[self.place(k)] == k);
            }
            if ks.contains(k) {
                let i = choose|i: int| 0 <= i < ks.len() && ks[i] == k;
                assert(self.key_at(i) == k);
            }
        }
        assert(ks.to_set() =~= self@.dom());
    }

    /// A map with no entries.
    pub fn new() -> (r: Self)
        ensures
            r.wf(),
            r.size() == 0,
            r@ == Map::<K::M, V>::empty(),
    {
        let r = SortedMap { entries: Vec::new() };
        proof {
            assert(r@ =~= Map::<K::M, V>::empty());
        }
        r
    }

    /// The number of entries.
    pub fn len(&self) -> (r: usize)
        ensures
            r == self.size(),
    {
        self.entries.len()
    }

    /// Whether there are no entries.
    pub fn is_empty(&self) -> (r: bool)
        ensures
            r == (self.size() == 0),
    {
        self.entries.len() == 0
    }

    /// The key at position `i`.
    pub fn key(&self, i: usize) -> (r: &K)
        requires
            i < self.size(),
        ensures
            r.model() == self.key_at(i as int),
    {
        &self.entries[i].0
    }

    /// The value at position `i`.
    pub fn value(&self, i: usize) -> (r: &V)
        requires
            i < self.size(),
        ensures
            *r == self.value_at(i as int),
    {
        &self.entries[i].1
    }

    /// The position of `key` (`true`), or the position where it would go.
    fn find(&self, key: &K) -> (r: (bool, usize))
        requires
            self.wf(),
        ensures
            r.1 <= self.size(),
            r.0 ==> r.1 < self.size() && self.key_at(r.1 as int) == key.model(),
            !r.0 ==> !self.has(key.model()),
            !r.0 ==> forall|i: int| 0 <= i < r.1 ==> K::before(#[trigger] self.key_at(i), key.model()),
            !r.0 ==> forall|i: int|
                r.1 <= i < self.size() ==> K::before(key.model(), #[trigger] self.key_at(i)),
    {
        let mut lo: usize = 0;
        let mut hi: usize = self.entries.len();
        while lo < hi
            invariant
                self.wf(),
                lo <= hi <= self.size(),
                self.size() == self.entries@.len(),
                forall|i: int| 0 <= i < lo ==> K::before(#[trigger] self.key_at(i), key.model()),
                forall|i: int| hi <= i < self.size() ==> K::before(key.model(), #[trigger] self.key_at(i)),
            decreases hi - lo,
        {
            let mid: usize = lo + (hi - lo) / 2;
            match self.entries[mid].0.order(key) {
                Side::Same => {
                    return (true, mid);
                },
                Side::Before => {
                    proof {
                        assert forall|i: int| 0 <= i < mid + 1 implies K::before(
                            #[trigger] self.key_at(i),
                            key.model(),
                        ) by {
                            if i < mid {
                                K::before_transitive(self.key_at(i), self.key_at(mid as int), key.model());
                            }
                        }
                    }
                    lo = mid + 1;
                },
                Side::After => {
                    proof {
                        assert forall|i: int| mid <= i < self.size() implies K::before(
                            key.model(),
                            #[trigger] self.key_at(i),
                        ) by {
                            if i > mid {
                                K::before_transitive(key.model(), self.key_at(mid as int), self.key_at(i));
                            }
                        }
                    }
                    hi = mid;
                },
            }
        }
        proof {
            K::before_irreflexive(key.model());
        }
        (false, lo)
    }

    /// The value under `key`, if there is one.
    pub fn get(&self, key: &K) -> (r: Option<&V>)
        requires
            self.wf(),
        ensures
            r is Some <==> self@.contains_key(key.model()),
            r matches Some(v) ==> *v == self@[key.model()],
    {
        let (found, at) = self.find(key);
        if found {
            proof {
                self.lemma_entry(at as int);
            }
            Some(&self.entries[at].1)
        } else {
            None
        }
    }

    /// Whether `key` is there.
    pub fn contains_key(&self, key: &K) -> (r: bool)
        requires
            self.wf(),
        ensures
            r == self@.contains_key(key.model()),
    {
        let (found, at) = self.find(key);
        proof {
            if found {
                self.lemma_entry(at as int);
            }
        }
        found
    }

    /// Puts `value` under `key`, replacing what was there.
    pub fn insert(&mut self, key: K, value: V)
        requires
            old(self).wf(),
        ensures
            final(self).wf(),
            final(self)@ == old(self)@.insert(key.model(), value),
            final(self).size() == old(self).size() + if old(self)@.contains_key(key.model()) {
                0nat
            } else {
                1nat
            },
    {
        let ghost before = *self;
        let ghost k = key.model();
        let (found, at) = self.find(&key);
        if found {
            proof {
                before.lemma_entry(at as int);
            }
            self.entries.set(at, (key, value));
            proof {
                assert forall|i: int| 0 <= i < self.size() implies #[trigger] self.key_at(i)
                    == before.key_at(i) by {}
                assert(self.wf());
            }
        } else {
            self.entries.insert(at, (key, value));
            proof {
                assert forall|i: int| 0 <= i < self.size() implies #[trigger] self.key_at(i) == (if i
                    < at {
                    before.key_at(i)
                } else if i == at {
                    k
                } else {
                    before.key_at(i - 1)
                }) by {}
                assert forall|i: int, j: int| 0 <= i < j < self.size() implies K::before(
                    #[trigger] self.key_at(i),
                    #[trigger] self.key_at(j),
                ) by {
                    if i < at && j > at {
                        K::before_transitive(self.key_at(i), k, self.key_at(j));
                    }
                }
            }
        }
        proof {
            assert(self.key_at(at as int) == k);
            self.lemma_entry(at as int);
            assert forall|q: K::M| self@.contains_key(q) == before@.insert(k, value).contains_key(q)
                by {
                if before.has(q) {
                    let i = before.place(q);
                    if found || i < at {
                        assert(self.key_at(i) == q);
                    } else {
                        assert(self.key_at(i + 1) == q);
                    }
                }
                if self.has(q) && q != k {
                    let i = self.place(q);
                    if found || i < at {
                        assert(before.key_at(i) == q);
                    } else {
                        assert(before.key_at(i - 1) == q);
                    }
                }
            }
            assert forall|q: K::M| #[trigger] self@.contains_key(q) implies self@[q] == before@.insert(
                k,
                value,
            )[q] by {
                if q != k {
                    let i = self.place(q);
                    assert(i != at);
                    self.lemma_entry(i);
                    if found || i < at {
                        assert(before.key_at(i) == q);
                        before.lemma_entry(i);
                    } else {
                        assert(before.key_at(i - 1) == q);
                        before.lemma_entry(i - 1);
                    }
                }
            }
            assert(self@ =~= before@.insert(k, value));
        }
    }

    /// Access to the value at position `i`. The keys stay as they are.
    pub fn value_mut(&mut self, i: usize) -> (r: &mut V)
        requires
            i < old(self).size(),
        ensures
            *r == old(self).value_at(i as int),
            final(self).size() == old(self).size(),
            forall|j: int|
                0 <= j < old(self).size() ==> #[trigger] final(self).key_at(j) == old(self).key_at(j),
            forall|j: int|
                0 <= j < old(self).size() ==> #[trigger] final(self).value_at(j) == if j == i {
                    *final(r)
                } else {
                    old(self).value_at(j)
                },
    {
        &mut self.entries[i].1
    }

    /// A map with the same keys in the same places is in order too, and differs
    /// only where a value differs.
    proof fn lemma_same_keys(&self, other: &Self, at: int)
        requires
            self.wf(),
            other.size() == self.size(),
            0 <= at < self.size(),
            forall|j: int| 0 <= j < self.size() ==> #[trigger] other.key_at(j) == self.key_at(j),
            forall|j: int|
                0 <= j < self.size() && j != at ==> #[trigger] other.value_at(j) == self.value_at(j),
        ensures
            other.wf(),
            other@ == self@.insert(self.key_at(at), other.value_at(at)),
    {
        assert(other.wf());
        let k = self.key_at(at);
        other.lemma_entry(at);
        assert forall|q: K::M| other@.contains_key(q) == self@.insert(k, other.value_at(at)).contains_key(q) by {
            if self.has(q) {
                assert(other.key_at(self.place(q)) == q);
            }
            if other.has(q) {
                assert(self.key_at(other.place(q)) == q);
            }
        }
        assert forall|q: K::M| #[trigger] other@.contains_key(q) implies other@[q] == self@.insert(
            k,
            other.value_at(at),
        )[q] by {
            if q != k {
                let i = other.place(q);
                other.lemma_entry(i);
                assert(self.key_at(i) == q);
                self.lemma_entry(i);
            }
        }
        assert(other@ =~= self@.insert(k, other.value_at(at)));
    }

    /// Access to the value under `key`.
    pub fn get_mut(&mut self, key: &K) -> (r: Option<&mut V>)
        requires
            old(self).wf(),
        ensures
            match r {
                Some(v) => {
                    &&& old(self)@.contains_key(key.model())
                    &&& *v == old(self)@[key.model()]
                    &&& final(self).wf()
                    &&& final(self)@ == old(self)@.insert(key.model(), *final(v))
                    &&& final(self).size() == old(self).size()
                },
                None => !old(self)@.contains_key(key.model()) && *final(self) == *old(self),
            },
    {
        let ghost before = *self;
        let (found, at) = self.find(key);
        if found {
            proof {
                before.lemma_entry(at as int);
                assert forall|other: Self|
                    other.size() == before.size() && (forall|j: int|
                        0 <= j < before.size() ==> #[trigger] other.key_at(j) == before.key_at(j))
                        && (forall|j: int|
                        0 <= j < before.size() && j != at ==> #[trigger] other.value_at(j)
                            == before.value_at(j)) implies #[trigger] other.wf() && other@
                    == before@.insert(before.key_at(at as int), other.value_at(at as int)) by {
                    before.lemma_same_keys(&other, at as int);
                }
            }
            Some(self.value_mut(at))
        } else {
            None
        }
    }

    /// Takes `key` out, if it is there.
    pub fn remove(&mut self, key: &K)
        requires
            old(self).wf(),
        ensures
            final(self).wf(),
            final(self)@ == old(self)@.remove(key.model()),
    {
        let _ = self.take(key);
    }

    /// Takes `key` out and gives its value, if it is there.
    pub fn take(&mut self, key: &K) -> (r: Option<V>)
        requires
            old(self).wf(),
        ensures
            final(self).wf(),
            final(self)@ == old(self)@.remove(key.model()),
            r is Some <==> old(self)@.contains_key(key.model()),
            r matches Some(v) ==> v == old(self)@[key.model()],
    {
        let ghost before = *self;
        let ghost k = key.model();
        let (found, at) = self.find(key);
        if found {
            proof {
                before.lemma_entry(at as int);
            }
            let (_, v) = self.entries.remove(at);
            proof {
                assert forall|i: int| 0 <= i < self.size() implies #[trigger] self.key_at(i) == (if i
                    < at {
                    before.key_at(i)
                } else {
                    before.key_at(i + 1)
                }) by {}
                assert forall|i: int| 0 <= i < self.size() implies #[trigger] self.value_at(i) == (if i
                    < at {
                    before.value_at(i)
                } else {
                    before.value_at(i + 1)
                }) by {}
                assert(self.wf());
                assert forall|q: K::M| self@.contains_key(q) == before@.remove(k).contains_key(q) by {
                    if before.has(q) && q != k {
                        let i = before.place(q);
                        assert(self.key_at(if i < at {
                            i
                        } else {
                            i - 1
                        }) == q);
                    }
                    if self.has(q) {
                        let i = self.place(q);
                        let b = if i < at {
                            i
                        } else {
                            i + 1
                        };
                        assert(before.key_at(b) == q);
                        if q == k {
                            before.lemma_unique(b, at as int);
                        }
                    }
                }
                assert forall|q: K::M| #[trigger] self@.contains_key(q) implies self@[q]
                    == before@.remove(k)[q] by {
                    let i = self.place(q);
                    self.lemma_entry(i);
                    let b = if i < at {
                        i
                    } else {
                        i + 1
                    };
                    assert(before.key_at(b) == q);
                    before.lemma_entry(b);
                }
                assert(self@ =~= before@.remove(k));
            }
            Some(v)
        } else {
            proof {
                assert(self@ =~= before@.remove(k));
            }
            None
        }
    }
}

impl<V> SortedMap<String, V> {
    /// The value under `name`, if there is one.
    pub fn lookup(&self, name: &str) -> (r: Option<&V>)
        requires
            self.wf(),
        ensures
            r is Some <==> self@.contains_key(name@),
            r matches Some(v) ==> *v == self@[name@],
    {
        self.get(&name.to_owned())
    }

    /// Whether `name` is there.
    pub fn holds(&self, name: &str) -> (r: bool)
        requires
            self.wf(),
        ensures
            r == self@.contains_key(name@),
    {
        self.contains_key(&name.to_owned())
    }
}

} // verus!
