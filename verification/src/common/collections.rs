//! Insertion-ordered associative containers over plain keys.
use std::collections::HashMap;
use std::hash::Hash;
use vstd::prelude::*;

verus! {

/// A plain value that can be compared for equality and used as a key.
pub trait Key: Sized {
    fn duplicate(&self) -> (r: Self)
        ensures
            r == *self,
    ;

    fn same(&self, other: &Self) -> (r: bool)
        ensures
            r == (*self == *other),
    ;
}

/// A key with a total order.
pub trait Ranked: Key {
    /// The place of the key in the order.
    spec fn rank(self) -> int;

    /// Different keys have different places.
    proof fn rank_is_injective(a: Self, b: Self)
        requires
            a.rank() == b.rank(),
        ensures
            a == b,
    ;

    fn not_after(&self, other: &Self) -> (r: bool)
        ensures
            r == (self.rank() <= other.rank()),
    ;
}

impl Ranked for usize {
    open spec fn rank(self) -> int {
        self as int
    }

    proof fn rank_is_injective(a: Self, b: Self) {
    }

    fn not_after(&self, other: &Self) -> (r: bool) {
        *self <= *other
    }
}

/// The sequence rises in rank.
pub open spec fn ranked<K: Ranked>(s: Seq<K>) -> bool {
    forall|i: int, j: int| 0 <= i <= j < s.len() ==> (#[trigger] s[i]).rank() <= (#[trigger] s[j]).rank()
}

/// There is one way only to put the same items in the order of their ranks.
pub proof fn rank_order_is_unique<K: Ranked>(a: Seq<K>, b: Seq<K>)
    requires
        ranked(a),
        ranked(b),
        a.to_multiset() == b.to_multiset(),
    ensures
        a == b,
    decreases a.len(),
{
    a.to_multiset_ensures();
    b.to_multiset_ensures();
    if a.len() > 0 {
        let x = a.last();
        let y = b.last();
        assert(a.contains(x));
        assert(b.contains(y));
        assert(a.to_multiset().count(x) > 0);
        assert(b.to_multiset().count(y) > 0);
        assert(b.contains(x));
        assert(a.contains(y));
        let i = choose|i: int| 0 <= i < b.len() && b[i] == x;
        let j = choose|j: int| 0 <= j < a.len() && a[j] == y;
        assert(b[i].rank() <= b[b.len() - 1].rank());
        assert(a[j].rank() <= a[a.len() - 1].rank());
        K::rank_is_injective(x, y);
        assert(a.drop_last() =~= a.remove(a.len() - 1));
        assert(b.drop_last() =~= b.remove(b.len() - 1));
        rank_order_is_unique(a.drop_last(), b.drop_last());
        assert(a =~= a.drop_last().push(x));
        assert(b =~= b.drop_last().push(y));
    } else {
        assert(a =~= b);
    }
}

/// Puts `items` in the order of their ranks.
pub fn sort_ranked<K: Ranked>(items: Vec<K>) -> (r: Vec<K>)
    ensures
        ranked(r@),
        r@.to_multiset() == items@.to_multiset(),
{
    let mut r: Vec<K> = Vec::new();
    let mut i: usize = 0;
    assert(items@.take(0) =~= r@);
    while i < items.len()
        invariant
            i <= items@.len(),
            ranked(r@),
            r@.len() == i,
            r@.to_multiset() == items@.take(i as int).to_multiset(),
        decreases items@.len() - i,
    {
        let k = items[i].duplicate();
        let mut at: usize = r.len();
        while at > 0 && !r[at - 1].not_after(&k)
            invariant
                at <= r@.len(),
                ranked(r@),
                forall|j: int| at <= j < r@.len() ==> k.rank() <= (#[trigger] r@[j]).rank(),
            decreases at,
        {
            at -= 1;
        }
        proof {
            let before = r@;
            let after = before.insert(at as int, k);
            assert forall|a: int, b: int| 0 <= a <= b < after.len() implies (#[trigger] after[a]).rank() <= (#[trigger] after[b]).rank() by {
                let x = if a < at { a } else { a - 1 };
                let y = if b < at { b } else { b - 1 };
                if a == at || b == at {
                    if a < at {
                        assert(before[a].rank() <= before[at - 1].rank());
                    }
                } else {
                    assert(before[x].rank() <= before[y].rank());
                }
            }
            vstd::seq_lib::to_multiset_insert(before, at as int, k);
            assert(items@.take(i + 1) =~= items@.take(i as int).push(k));
            vstd::seq_lib::to_multiset_build(items@.take(i as int), k);
        }
        r.insert(at, k);
        i += 1;
    }
    assert(items@.take(items@.len() as int) =~= items@);
    r
}

impl Key for usize {
    fn duplicate(&self) -> (r: Self) {
        *self
    }

    fn same(&self, other: &Self) -> (r: bool) {
        *self == *other
    }
}

impl<A: Key, B: Key> Key for (A, B) {
    fn duplicate(&self) -> (r: Self) {
        (self.0.duplicate(), self.1.duplicate())
    }

    fn same(&self, other: &Self) -> (r: bool) {
        self.0.same(&other.0) && self.1.same(&other.1)
    }
}

/// A map that keeps its entries in a vector, each key once.
#[verifier::reject_recursive_types(K)]
#[derive(Debug)]
pub struct VecMap<K: Key, V> {
    entries: Vec<(K, V)>,
}

pub open spec fn keys_distinct<K, V>(entries: Seq<(K, V)>) -> bool {
    forall|i: int, j: int|
        0 <= i < j < entries.len() ==> (#[trigger] entries[i]).0 != (#[trigger] entries[j]).0
}

/// `k` is the key of some entry.
pub open spec fn has_key<K, V>(entries: Seq<(K, V)>, k: K) -> bool {
    exists|i: int| 0 <= i < entries.len() && (#[trigger] entries[i]).0 == k
}

/// The value of the entry whose key is `k`.
pub open spec fn value_of<K, V>(entries: Seq<(K, V)>, k: K) -> V {
    entries[choose|i: int| 0 <= i < entries.len() && (#[trigger] entries[i]).0 == k].1
}

pub open spec fn entries_map<K, V>(entries: Seq<(K, V)>) -> Map<K, V> {
    Map::new(|k: K| has_key(entries, k), |k: K| value_of(entries, k))
}

proof fn lemma_entry<K, V>(entries: Seq<(K, V)>, i: int)
    requires
        keys_distinct(entries),
        0 <= i < entries.len(),
    ensures
        entries_map(entries).contains_key(entries[i].0),
        entries_map(entries)[entries[i].0] == entries[i].1,
{
    assert(has_key(entries, entries[i].0));
    let j = choose|j: int| 0 <= j < entries.len() && (#[trigger] entries[j]).0 == entries[i].0;
    assert(j == i);
}

proof fn lemma_push<K, V>(entries: Seq<(K, V)>, k: K, v: V)
    requires
        keys_distinct(entries),
        !has_key(entries, k),
    ensures
        keys_distinct(entries.push((k, v))),
        entries_map(entries.push((k, v))) == entries_map(entries).insert(k, v),
{
    let next = entries.push((k, v));
    assert forall|i: int, j: int| 0 <= i < j < next.len() implies (#[trigger] next[i]).0 != (
    #[trigger] next[j]).0 by {
        assert(entries[i].0 != k);
    }
    assert forall|q: K| has_key(next, q) <==> has_key(entries, q) || q == k by {
        if has_key(entries, q) {
            let i = choose|i: int| 0 <= i < entries.len() && (#[trigger] entries[i]).0 == q;
            assert(next[i].0 == q);
        }
        if q == k {
            assert(next[entries.len() as int].0 == q);
        }
        if has_key(next, q) && q != k {
            let i = choose|i: int| 0 <= i < next.len() && (#[trigger] next[i]).0 == q;
            assert(entries[i].0 == q);
        }
    }
    assert forall|q: K| has_key(next, q) implies entries_map(next)[q] == entries_map(entries).insert(
        k,
        v,
    )[q] by {
        let i = choose|i: int| 0 <= i < next.len() && (#[trigger] next[i]).0 == q;
        lemma_entry(next, i);
        if i < entries.len() {
            lemma_entry(entries, i);
        }
    }
    assert(entries_map(next) =~= entries_map(entries).insert(k, v));
}

proof fn lemma_remove<K, V>(entries: Seq<(K, V)>, at: int)
    requires
        keys_distinct(entries),
        0 <= at < entries.len(),
    ensures
        keys_distinct(entries.remove(at)),
        !has_key(entries.remove(at), entries[at].0),
        entries_map(entries.remove(at)) == entries_map(entries).remove(entries[at].0),
{
    let next = entries.remove(at);
    let k = entries[at].0;
    assert forall|i: int, j: int| 0 <= i < j < next.len() implies (#[trigger] next[i]).0 != (
    #[trigger] next[j]).0 by {
        let a = if i < at { i } else { i + 1 };
        let b = if j < at { j } else { j + 1 };
        assert(entries[a].0 != entries[b].0);
    }
    assert forall|q: K| has_key(next, q) <==> has_key(entries, q) && q != k by {
        if has_key(next, q) {
            let i = choose|i: int| 0 <= i < next.len() && (#[trigger] next[i]).0 == q;
            let a = if i < at { i } else { i + 1 };
            assert(entries[a].0 == q);
            assert(a != at);
            assert(entries[at].0 == k);
        }
        if has_key(entries, q) && q != k {
            let i = choose|i: int| 0 <= i < entries.len() && (#[trigger] entries[i]).0 == q;
            let a = if i < at { i } else { i - 1 };
            assert(next[a].0 == q);
        }
    }
    assert forall|q: K| has_key(next, q) implies entries_map(next)[q] == entries_map(entries)[q] by {
        let i = choose|i: int| 0 <= i < next.len() && (#[trigger] next[i]).0 == q;
        let a = if i < at { i } else { i + 1 };
        lemma_entry(next, i);
        lemma_entry(entries, a);
    }
    assert(entries_map(next) =~= entries_map(entries).remove(k));
}

proof fn lemma_entries_len<K, V>(entries: Seq<(K, V)>)
    requires
        keys_distinct(entries),
    ensures
        entries_map(entries).dom().finite(),
        entries_map(entries).len() == entries.len(),
    decreases entries.len(),
{
    if entries.len() == 0 {
        assert(entries_map(entries).dom() =~= Set::<K>::empty());
    } else {
        let last = entries.len() - 1;
        let init = entries.remove(last);
        lemma_remove(entries, last);
        lemma_entries_len(init);
        lemma_entry(entries, last);
        assert(entries_map(entries).dom() =~= entries_map(init).dom().insert(entries[last].0));
    }
}

impl<K: Key, V> View for VecMap<K, V> {
    type V = Map<K, V>;

    closed spec fn view(&self) -> Map<K, V> {
        entries_map(self.entries@)
    }
}

impl<K: Key, V> VecMap<K, V> {
    #[verifier::type_invariant]
    spec fn distinct(self) -> bool {
        keys_distinct(self.entries@)
    }

    pub fn new() -> (r: Self)
        ensures
            r@ == Map::<K, V>::empty(),
    {
        let r = VecMap { entries: Vec::new() };
        assert(r@ =~= Map::<K, V>::empty());
        r
    }

    /// The number of entries.
    pub fn len(&self) -> (r: usize)
        ensures
            self@.dom().finite(),
            r == self@.len(),
    {
        proof {
            use_type_invariant(self);
            lemma_entries_len(self.entries@);
        }
        self.entries.len()
    }

    fn position(&self, k: &K) -> (r: Option<usize>)
        ensures
            match r {
                Some(i) => i < self.entries@.len() && self.entries@[i as int].0 == *k
                    && self@.contains_key(*k) && self@[*k] == self.entries@[i as int].1,
                None => !has_key(self.entries@, *k) && !self@.contains_key(*k),
            },
    {
        proof {
            use_type_invariant(self);
        }
        let mut i: usize = 0;
        while i < self.entries.len()
            invariant
                i <= self.entries@.len(),
                keys_distinct(self.entries@),
                forall|j: int| 0 <= j < i ==> (#[trigger] self.entries@[j]).0 != *k,
            decreases self.entries@.len() - i,
        {
            if self.entries[i].0.same(k) {
                proof {
                    lemma_entry(self.entries@, i as int);
                }
                return Some(i);
            }
            i += 1;
        }
        None
    }

    pub fn contains_key(&self, k: &K) -> (r: bool)
        ensures
            r == self@.contains_key(*k),
    {
        self.position(k).is_some()
    }

    pub fn get(&self, k: &K) -> (r: Option<&V>)
        ensures
            match r {
                Some(v) => self@.contains_key(*k) && *v == self@[*k],
                None => !self@.contains_key(*k),
            },
    {
        match self.position(k) {
            Some(i) => Some(&self.entries[i].1),
            None => None,
        }
    }

    /// Drops the entry of `k` and hands back its value.
    pub fn remove(&mut self, k: &K) -> (r: Option<V>)
        ensures
            final(self)@ == old(self)@.remove(*k),
            match r {
                Some(v) => old(self)@.contains_key(*k) && v == old(self)@[*k],
                None => !old(self)@.contains_key(*k),
            },
    {
        match self.position(k) {
            Some(i) => {
                proof {
                    use_type_invariant(&*self);
                    lemma_remove(self.entries@, i as int);
                }
                let mut entries: Vec<(K, V)> = Vec::new();
                std::mem::swap(&mut self.entries, &mut entries);
                let (_, v) = entries.remove(i);
                self.entries = entries;
                Some(v)
            },
            None => {
                assert(self@ =~= self@.remove(*k));
                None
            },
        }
    }

    /// Binds `k` to `v` and hands back the value that was bound to it before.
    pub fn insert(&mut self, k: K, v: V) -> (r: Option<V>)
        ensures
            final(self)@ == old(self)@.insert(k, v),
            match r {
                Some(p) => old(self)@.contains_key(k) && p == old(self)@[k],
                None => !old(self)@.contains_key(k),
            },
    {
        let previous = self.remove(&k);
        proof {
            use_type_invariant(&*self);
            if has_key(self.entries@, k) {
                assert(self@.contains_key(k));
            }
            lemma_push(self.entries@, k, v);
            assert(old(self)@.remove(k).insert(k, v) =~= old(self)@.insert(k, v));
        }
        let mut entries: Vec<(K, V)> = Vec::new();
        std::mem::swap(&mut self.entries, &mut entries);
        entries.push((k, v));
        self.entries = entries;
        previous
    }

    /// The keys, each once.
    pub fn keys(&self) -> (r: Vec<K>)
        ensures
            r@.no_duplicates(),
            forall|k: K| #[trigger] r@.contains(k) <==> self@.contains_key(k),
            self@.dom().finite(),
            r@.len() == self@.len(),
    {
        proof {
            use_type_invariant(self);
            lemma_entries_len(self.entries@);
        }
        let mut r: Vec<K> = Vec::new();
        let mut i: usize = 0;
        while i < self.entries.len()
            invariant
                i <= self.entries@.len(),
                r@ == Seq::new(i as nat, |j: int| self.entries@[j].0),
            decreases self.entries@.len() - i,
        {
            r.push(self.entries[i].0.duplicate());
            i += 1;
        }
        assert forall|k: K| #[trigger] r@.contains(k) <==> self@.contains_key(k) by {
            if r@.contains(k) {
                let j = choose|j: int| 0 <= j < r@.len() && r@[j] == k;
                lemma_entry(self.entries@, j);
            }
            if self@.contains_key(k) {
                let j = choose|j: int|
                    0 <= j < self.entries@.len() && (#[trigger] self.entries@[j]).0 == k;
                assert(r@[j] == k);
            }
        }
        r
    }

    pub fn clear(&mut self)
        ensures
            final(self)@ == Map::<K, V>::empty(),
    {
        self.entries = Vec::new();
        assert(self@ =~= Map::<K, V>::empty());
    }
}

impl<K: Key, V: Copy> Clone for VecMap<K, V> {
    fn clone(&self) -> (r: Self)
        ensures
            r@ == self@,
    {
        proof {
            use_type_invariant(self);
        }
        let mut entries: Vec<(K, V)> = Vec::new();
        let mut i: usize = 0;
        while i < self.entries.len()
            invariant
                i <= self.entries@.len(),
                entries@ == self.entries@.take(i as int),
            decreases self.entries@.len() - i,
        {
            entries.push((self.entries[i].0.duplicate(), self.entries[i].1));
            i += 1;
            assert(entries@ =~= self.entries@.take(i as int));
        }
        assert(entries@ =~= self.entries@);
        VecMap { entries }
    }
}

/// A set that keeps its members in a vector, each once.
#[derive(Debug)]
pub struct VecSet<K: Key> {
    items: Vec<K>,
}

impl<K: Key> View for VecSet<K> {
    type V = Set<K>;

    closed spec fn view(&self) -> Set<K> {
        self.items@.to_set()
    }
}

impl<K: Key> VecSet<K> {
    #[verifier::type_invariant]
    spec fn distinct(self) -> bool {
        self.items@.no_duplicates()
    }

    pub fn new() -> (r: Self)
        ensures
            r@ == Set::<K>::empty(),
    {
        let r = VecSet { items: Vec::new() };
        assert(r@ =~= Set::<K>::empty());
        r
    }

    /// The number of members.
    pub fn len(&self) -> (r: usize)
        ensures
            self@.finite(),
            r == self@.len(),
    {
        proof {
            use_type_invariant(self);
            self.items@.unique_seq_to_set();
        }
        self.items.len()
    }

    pub fn is_empty(&self) -> (r: bool)
        ensures
            r == (self@ == Set::<K>::empty()),
    {
        if self.items.len() == 0 {
            assert(self@ =~= Set::<K>::empty());
            true
        } else {
            assert(self@.contains(self.items@[0]));
            false
        }
    }

    fn position(&self, k: &K) -> (r: Option<usize>)
        ensures
            match r {
                Some(i) => i < self.items@.len() && self.items@[i as int] == *k && self@.contains(
                    *k,
                ),
                None => !self@.contains(*k),
            },
    {
        let mut i: usize = 0;
        while i < self.items.len()
            invariant
                i <= self.items@.len(),
                forall|j: int| 0 <= j < i ==> self.items@[j] != *k,
            decreases self.items@.len() - i,
        {
            if self.items[i].same(k) {
                assert(self.items@.to_set().contains(*k));
                return Some(i);
            }
            i += 1;
        }
        None
    }

    pub fn contains(&self, k: &K) -> (r: bool)
        ensures
            r == self@.contains(*k),
    {
        self.position(k).is_some()
    }

    /// Adds `k`; true when it was not a member before.
    pub fn insert(&mut self, k: K) -> (r: bool)
        ensures
            final(self)@ == old(self)@.insert(k),
            r == !old(self)@.contains(k),
    {
        if self.contains(&k) {
            assert(self@ =~= self@.insert(k));
            return false;
        }
        proof {
            use_type_invariant(&*self);
            assert forall|q: K| self.items@.push(k).contains(q) <==> self.items@.contains(q) || q
                == k by {
                if self.items@.contains(q) {
                    let j = choose|j: int| 0 <= j < self.items@.len() && self.items@[j] == q;
                    assert(self.items@.push(k)[j] == q);
                }
                if q == k {
                    assert(self.items@.push(k)[self.items@.len() as int] == q);
                }
            }
            assert(self.items@.push(k).to_set() =~= self.items@.to_set().insert(k));
        }
        let mut items: Vec<K> = Vec::new();
        std::mem::swap(&mut self.items, &mut items);
        items.push(k);
        self.items = items;
        true
    }

    /// Drops `k`; true when it was a member before.
    pub fn remove(&mut self, k: &K) -> (r: bool)
        ensures
            final(self)@ == old(self)@.remove(*k),
            r == old(self)@.contains(*k),
    {
        match self.position(k) {
            Some(i) => {
                proof {
                    use_type_invariant(&*self);
                    let before = self.items@;
                    let after = before.remove(i as int);
                    assert forall|q: K| after.contains(q) <==> before.contains(q) && q != *k by {
                        if after.contains(q) {
                            let j = choose|j: int| 0 <= j < after.len() && after[j] == q;
                            let a = if j < i { j } else { j + 1 };
                            assert(before[a] == q);
                        }
                        if before.contains(q) && q != *k {
                            let j = choose|j: int| 0 <= j < before.len() && before[j] == q;
                            let a = if j < i { j } else { j - 1 };
                            assert(after[a] == q);
                        }
                    }
                    assert(after.to_set() =~= before.to_set().remove(*k));
                }
                let mut items: Vec<K> = Vec::new();
                std::mem::swap(&mut self.items, &mut items);
                items.remove(i);
                self.items = items;
                true
            },
            None => {
                assert(self@ =~= self@.remove(*k));
                false
            },
        }
    }

    /// The members, each once.
    pub fn to_vec(&self) -> (r: Vec<K>)
        ensures
            r@.no_duplicates(),
            r@.to_set() == self@,
    {
        proof {
            use_type_invariant(self);
        }
        let mut r: Vec<K> = Vec::new();
        let mut i: usize = 0;
        while i < self.items.len()
            invariant
                i <= self.items@.len(),
                r@ == self.items@.take(i as int),
            decreases self.items@.len() - i,
        {
            r.push(self.items[i].duplicate());
            i += 1;
        }
        assert(r@ == self.items@);
        r
    }

    pub fn clear(&mut self)
        ensures
            final(self)@ == Set::<K>::empty(),
    {
        self.items = Vec::new();
        assert(self@ =~= Set::<K>::empty());
    }
}

impl<K: Key> Clone for VecSet<K> {
    fn clone(&self) -> (r: Self)
        ensures
            r@ == self@,
    {
        proof {
            use_type_invariant(self);
        }
        let mut items: Vec<K> = Vec::new();
        let mut i: usize = 0;
        while i < self.items.len()
            invariant
                i <= self.items@.len(),
                items@ == self.items@.take(i as int),
            decreases self.items@.len() - i,
        {
            items.push(self.items[i].duplicate());
            i += 1;
            assert(items@ =~= self.items@.take(i as int));
        }
        assert(items@ =~= self.items@);
        VecSet { items }
    }
}

/// The keys of a map, each once.
pub(crate) fn map_keys<K: Copy + Eq + Hash, V>(map: &HashMap<K, V>) -> (r: Vec<K>)
    requires
        vstd::std_specs::hash::obeys_key_model::<K>(),
    ensures
        r@.no_duplicates(),
        forall|k: K| #[trigger] r@.contains(k) <==> map@.contains_key(k),
        r@.to_set() == map@.dom(),
{
    let keys = map.keys();
    let ghost all = vstd::std_specs::iter::IteratorSpec::remaining(&keys).unref();
    assert(all.to_set() == map@.dom());
    let mut r: Vec<K> = Vec::new();
    for k in it: keys
        invariant
            it.seq().unref() == all,
            r@ == all.take(it.index() as int),
    {
        assert(*k == all[it.index() as int]);
        r.push(*k);
        assert(r@ =~= all.take(it.index() + 1));
    }
    assert(r@ =~= all);
    assert forall|k: K| #[trigger] r@.contains(k) <==> map@.contains_key(k) by {
        assert(r@.to_set().contains(k) <==> r@.contains(k));
    }
    r
}

} // verus!
