//! Small keyed collections backed by vectors.
//!
//! A set is modelled as a sequence without repetition, a map as a sequence
//! of key/value pairs whose keys do not repeat. Both keep the order in which
//! their members arrived, so that every enumeration is deterministic.

use crate::identity::Identity;
use vstd::prelude::*;

verus! {

/// `members` with `a` added at the end, unless it is there already.
pub open spec fn with_member<A>(members: Seq<A>, a: A) -> Seq<A> {
    if members.contains(a) {
        members
    } else {
        members.push(a)
    }
}

/// `members` without `a`.
pub open spec fn without_member<A>(members: Seq<A>, a: A) -> Seq<A> {
    if members.contains(a) {
        members.remove(members.index_of(a))
    } else {
        members
    }
}

/// Whether some pair of `pairs` has the key `k`.
pub open spec fn has_key<K, V>(pairs: Seq<(K, V)>, k: K) -> bool {
    exists|i: int| 0 <= i < pairs.len() && (#[trigger] pairs[i]).0 == k
}

/// The position of a pair with the key `k`.
pub open spec fn key_index<K, V>(pairs: Seq<(K, V)>, k: K) -> int {
    choose|i: int| 0 <= i < pairs.len() && (#[trigger] pairs[i]).0 == k
}

/// The value stored under `k`, if any.
pub open spec fn lookup<K, V>(pairs: Seq<(K, V)>, k: K) -> Option<V> {
    if has_key(pairs, k) {
        Some(pairs[key_index(pairs, k)].1)
    } else {
        None
    }
}

/// `pairs` with `v` stored under `k`: in place where the key exists, at the
/// end where it does not.
pub open spec fn upsert<K, V>(pairs: Seq<(K, V)>, k: K, v: V) -> Seq<(K, V)> {
    if has_key(pairs, k) {
        pairs.update(key_index(pairs, k), (k, v))
    } else {
        pairs.push((k, v))
    }
}

/// `pairs` without the pair stored under `k`.
pub open spec fn without_key<K, V>(pairs: Seq<(K, V)>, k: K) -> Seq<(K, V)> {
    if has_key(pairs, k) {
        pairs.remove(key_index(pairs, k))
    } else {
        pairs
    }
}

/// No key occurs twice.
pub open spec fn distinct_keys<K, V>(pairs: Seq<(K, V)>) -> bool {
    forall|i: int, j: int|
        0 <= i < pairs.len() && 0 <= j < pairs.len() && i != j ==> (#[trigger] pairs[i]).0 != (
        #[trigger] pairs[j]).0
}

/// With distinct keys, the pair at position `i` is the one found under its
/// key.
pub proof fn lemma_key_at<K, V>(pairs: Seq<(K, V)>, i: int)
    requires
        distinct_keys(pairs),
        0 <= i < pairs.len(),
    ensures
        has_key(pairs, pairs[i].0),
        key_index(pairs, pairs[i].0) == i,
        lookup(pairs, pairs[i].0) == Some(pairs[i].1),
{
    let k = pairs[i].0;
    assert(has_key(pairs, k));
    let j = key_index(pairs, k);
    assert(0 <= j < pairs.len() && pairs[j].0 == k);
}

/// Storing a value keeps the keys distinct, is found again under its key,
/// and changes nothing under any other key.
pub proof fn lemma_upsert<K, V>(pairs: Seq<(K, V)>, k: K, v: V)
    requires
        distinct_keys(pairs),
    ensures
        distinct_keys(upsert(pairs, k, v)),
        lookup(upsert(pairs, k, v), k) == Some(v),
        forall|q: K| q != k ==> lookup(upsert(pairs, k, v), q) == lookup(pairs, q),
        forall|q: K| has_key(upsert(pairs, k, v), q) <==> (q == k || has_key(pairs, q)),
{
    let after = upsert(pairs, k, v);
    if has_key(pairs, k) {
        let p = key_index(pairs, k);
        assert(after[p] == (k, v));
        assert forall|i: int| 0 <= i < after.len() implies (#[trigger] after[i]).0 == pairs[i].0 by {}
        lemma_key_at(after, p);
        assert forall|q: K| q != k implies lookup(after, q) == lookup(pairs, q) by {
            if has_key(pairs, q) {
                let i = key_index(pairs, q);
                assert(after[i] == pairs[i]);
                lemma_key_at(after, i);
            } else if has_key(after, q) {
                let i = key_index(after, q);
                assert(pairs[i].0 == q);
            }
        }
        assert forall|q: K| has_key(after, q) <==> (q == k || has_key(pairs, q)) by {
            if has_key(after, q) {
                let i = key_index(after, q);
                assert(pairs[i].0 == q);
            }
            if has_key(pairs, q) {
                let i = key_index(pairs, q);
                assert(after[i].0 == q);
            }
        }
    } else {
        let p = pairs.len() as int;
        assert(after[p] == (k, v));
        assert forall|i: int| 0 <= i < pairs.len() implies #[trigger] after[i] == pairs[i] by {}
        assert(distinct_keys(after)) by {
            assert forall|i: int, j: int|
                0 <= i < after.len() && 0 <= j < after.len() && i != j implies (
            #[trigger] after[i]).0 != (#[trigger] after[j]).0 by {
                if i < p {
                    assert(pairs[i].0 == after[i].0);
                }
                if j < p {
                    assert(pairs[j].0 == after[j].0);
                }
            }
        }
        lemma_key_at(after, p);
        assert forall|q: K| q != k implies lookup(after, q) == lookup(pairs, q) by {
            if has_key(pairs, q) {
                let i = key_index(pairs, q);
                assert(after[i] == pairs[i]);
                lemma_key_at(after, i);
            } else if has_key(after, q) {
                let i = key_index(after, q);
                assert(i < p);
                assert(pairs[i].0 == q);
            }
        }
        assert forall|q: K| has_key(after, q) <==> (q == k || has_key(pairs, q)) by {
            if has_key(after, q) && q != k {
                let i = key_index(after, q);
                assert(pairs[i].0 == q);
            }
            if has_key(pairs, q) {
                let i = key_index(pairs, q);
                assert(after[i].0 == q);
            }
        }
    }
}

/// Removing a key keeps the keys distinct, leaves nothing under that key,
/// and changes nothing under any other key.
pub proof fn lemma_without_key<K, V>(pairs: Seq<(K, V)>, k: K)
    requires
        distinct_keys(pairs),
    ensures
        distinct_keys(without_key(pairs, k)),
        lookup(without_key(pairs, k), k) is None,
        forall|q: K| q != k ==> lookup(without_key(pairs, k), q) == lookup(pairs, q),
{
    let after = without_key(pairs, k);
    if has_key(pairs, k) {
        let p = key_index(pairs, k);
        assert forall|i: int| 0 <= i < after.len() implies #[trigger] after[i] == pairs[if i
            < p {
            i
        } else {
            i + 1
        }] by {}
        assert(distinct_keys(after)) by {
            assert forall|i: int, j: int|
                0 <= i < after.len() && 0 <= j < after.len() && i != j implies (
            #[trigger] after[i]).0 != (#[trigger] after[j]).0 by {
                let i0 = if i < p { i } else { i + 1 };
                let j0 = if j < p { j } else { j + 1 };
                assert(after[i] == pairs[i0] && after[j] == pairs[j0]);
            }
        }
        if has_key(after, k) {
            let i = key_index(after, k);
            let i0 = if i < p { i } else { i + 1 };
            assert(after[i] == pairs[i0]);
            assert(false);
        }
        assert forall|q: K| q != k implies lookup(after, q) == lookup(pairs, q) by {
            if has_key(pairs, q) {
                let i0 = key_index(pairs, q);
                let i = if i0 < p { i0 } else { i0 - 1 };
                assert(after[i] == pairs[i0]);
                lemma_key_at(after, i);
            } else if has_key(after, q) {
                let i = key_index(after, q);
                let i0 = if i < p { i } else { i + 1 };
                assert(after[i] == pairs[i0]);
            }
        }
    }
}

/// Adding a member keeps the members distinct.
pub proof fn lemma_with_member<A>(members: Seq<A>, a: A)
    requires
        members.no_duplicates(),
    ensures
        with_member(members, a).no_duplicates(),
        with_member(members, a).contains(a),
        forall|b: A| with_member(members, a).contains(b) <==> (b == a || members.contains(b)),
{
    let after = with_member(members, a);
    if members.contains(a) {
    } else {
        let p = members.len() as int;
        assert(after[p] == a);
        assert forall|i: int| 0 <= i < p implies #[trigger] after[i] == members[i] by {}
        assert forall|b: A| after.contains(b) <==> (b == a || members.contains(b)) by {
            if after.contains(b) && b != a {
                let i = choose|i: int| 0 <= i < after.len() && after[i] == b;
                assert(members[i] == b);
            }
            if members.contains(b) {
                let i = choose|i: int| 0 <= i < members.len() && members[i] == b;
                assert(after[i] == b);
            }
        }
    }
}

/// Removing a member keeps the members distinct and removes only that one.
pub proof fn lemma_without_member<A>(members: Seq<A>, a: A)
    requires
        members.no_duplicates(),
    ensures
        without_member(members, a).no_duplicates(),
        !without_member(members, a).contains(a),
        forall|b: A| b != a ==> (without_member(members, a).contains(b) <==> members.contains(b)),
        members.contains(a) ==> without_member(members, a).len() + 1 == members.len(),
{
    let after = without_member(members, a);
    if members.contains(a) {
        let p = members.index_of(a);
        assert(0 <= p < members.len() && members[p] == a);
        assert forall|i: int| 0 <= i < after.len() implies #[trigger] after[i] == members[if i
            < p {
            i
        } else {
            i + 1
        }] by {}
        if after.contains(a) {
            let i = choose|i: int| 0 <= i < after.len() && after[i] == a;
            let i0 = if i < p { i } else { i + 1 };
            assert(after[i] == members[i0]);
            assert(false);
        }
        assert forall|b: A| b != a implies (after.contains(b) <==> members.contains(b)) by {
            if after.contains(b) {
                let i = choose|i: int| 0 <= i < after.len() && after[i] == b;
                let i0 = if i < p { i } else { i + 1 };
                assert(after[i] == members[i0]);
            }
            if members.contains(b) {
                let i0 = choose|i: int| 0 <= i < members.len() && members[i] == b;
                let i = if i0 < p { i0 } else { i0 - 1 };
                assert(after[i] == members[i0]);
            }
        }
    }
}

/// Every pair of `pairs` satisfies `p`.
pub open spec fn every_entry<K, V>(pairs: Seq<(K, V)>, p: spec_fn((K, V)) -> bool) -> bool {
    forall|i: int| 0 <= i < pairs.len() ==> p(#[trigger] pairs[i])
}

/// Removing a key from pairs that all satisfy `p` leaves pairs that all
/// satisfy `p`, none of them under that key.
pub proof fn lemma_without_key_every_entry<K, V>(
    pairs: Seq<(K, V)>,
    k: K,
    p: spec_fn((K, V)) -> bool,
)
    requires
        distinct_keys(pairs),
        every_entry(pairs, p),
    ensures
        every_entry(without_key(pairs, k), p),
        forall|i: int|
            0 <= i < without_key(pairs, k).len() ==> (#[trigger] without_key(pairs, k)[i]).0 != k,
{
    let after = without_key(pairs, k);
    if has_key(pairs, k) {
        let at = key_index(pairs, k);
        assert forall|i: int| 0 <= i < after.len() implies p(#[trigger] after[i]) && after[i].0
            != k by {
            let i0 = if i < at { i } else { i + 1 };
            assert(after[i] == pairs[i0]);
        }
    } else {
        assert forall|i: int| 0 <= i < after.len() implies (#[trigger] after[i]).0 != k by {}
    }
}

/// One more step of a selection over a sequence: what `filter_map` yields
/// on the first `i + 1` items, in terms of what it yields on the first `i`.
pub proof fn lemma_filter_map_step<A, B>(items: Seq<A>, f: spec_fn(A) -> Option<B>, i: int)
    requires
        0 <= i < items.len(),
    ensures
        items.take(i + 1).filter_map(f) == match f(items[i]) {
            Some(b) => items.take(i).filter_map(f).push(b),
            None => items.take(i).filter_map(f),
        },
{
    let t = items.take(i + 1);
    assert(t.drop_last() =~= items.take(i));
    assert(t.last() == items[i]);
    match f(items[i]) {
        Some(b) => {
            assert(items.take(i).filter_map(f) + seq![b] =~= items.take(i).filter_map(f).push(b));
        },
        None => {},
    }
}

/// A value that can serve as a key: compared and copied by its view.
pub trait Key: View + Sized {
    /// Whether two keys are the same.
    fn same(&self, other: &Self) -> (r: bool)
        ensures
            r == (self@ == other@),
    ;

    /// A copy of the key.
    fn duplicate(&self) -> (r: Self)
        ensures
            r@ == self@,
    ;
}

impl Key for String {
    fn same(&self, other: &Self) -> (r: bool) {
        *self == *other
    }

    fn duplicate(&self) -> (r: Self) {
        self.clone()
    }
}

impl Key for Identity {
    fn same(&self, other: &Self) -> (r: bool) {
        self.same_as(other)
    }

    fn duplicate(&self) -> (r: Self) {
        self.clone()
    }
}

/// A set of keys, in the order in which they were added.
pub struct KeySet<K: Key> {
    items: Vec<K>,
}

impl<K: Key> View for KeySet<K> {
    type V = Seq<K::V>;

    closed spec fn view(&self) -> Seq<K::V> {
        self.items@.map_values(|k: K| k@)
    }
}

impl<K: Key> KeySet<K> {
    /// No member occurs twice.
    pub open spec fn wf(&self) -> bool {
        self@.no_duplicates()
    }

    /// The empty set.
    pub fn new() -> (r: Self)
        ensures
            r@ == Seq::<K::V>::empty(),
            r.wf(),
    {
        let r = KeySet { items: Vec::new() };
        assert(r@ =~= Seq::<K::V>::empty());
        r
    }

    /// The number of members.
    pub fn len(&self) -> (n: usize)
        ensures
            n == self@.len(),
    {
        self.items.len()
    }

    /// The position of `k` among the members, if it is one.
    fn position(&self, k: &K) -> (r: Option<usize>)
        ensures
            match r {
                Some(i) => i < self@.len() && self@[i as int] == k@,
                None => !self@.contains(k@),
            },
    {
        let n = self.items.len();
        let mut i: usize = 0;
        while i < n
            invariant
                n == self.items@.len(),
                i <= n,
                forall|j: int| 0 <= j < i ==> self@[j] != k@,
            decreases n - i,
        {
            if self.items[i].same(k) {
                return Some(i);
            }
            i += 1;
        }
        None
    }

    /// Whether `k` is a member.
    pub fn contains(&self, k: &K) -> (r: bool)
        ensures
            r == self@.contains(k@),
    {
        self.position(k).is_some()
    }

    /// Adds `k`, unless it is a member already.
    pub fn insert(&mut self, k: K)
        requires
            old(self).wf(),
        ensures
            final(self).wf(),
            final(self)@ == with_member(old(self)@, k@),
    {
        if self.position(&k).is_none() {
            self.items.push(k);
            assert(self@ =~= old(self)@.push(k@));
        }
        proof {
            lemma_with_member(old(self)@, k@);
        }
    }

    /// Removes `k`, if it is a member.
    pub fn remove(&mut self, k: &K)
        requires
            old(self).wf(),
        ensures
            final(self).wf(),
            final(self)@ == without_member(old(self)@, k@),
    {
        match self.position(k) {
            Some(i) => {
                proof {
                    let p = old(self)@.index_of(k@);
                    assert(0 <= p < old(self)@.len() && old(self)@[p] == k@);
                    assert(p == i);
                }
                self.items.remove(i);
                assert(self@ =~= old(self)@.remove(i as int));
            },
            None => {},
        }
        proof {
            lemma_without_member(old(self)@, k@);
        }
    }

    /// The member at position `i`.
    pub fn get(&self, i: usize) -> (k: &K)
        requires
            i < self@.len(),
        ensures
            k@ == self@[i as int],
    {
        &self.items[i]
    }

    /// Copies of the members, in order.
    pub fn to_vec(&self) -> (r: Vec<K>)
        ensures
            r@.map_values(|k: K| k@) == self@,
    {
        let n = self.items.len();
        let mut out: Vec<K> = Vec::new();
        let mut i: usize = 0;
        while i < n
            invariant
                n == self.items@.len(),
                i <= n,
                out@.len() == i,
                forall|j: int| 0 <= j < i ==> (#[trigger] out@[j])@ == self@[j],
            decreases n - i,
        {
            out.push(self.items[i].duplicate());
            i += 1;
        }
        assert(out@.map_values(|k: K| k@) =~= self@);
        out
    }
}

/// A map from keys to values, in the order in which the keys were added.
pub struct KeyMap<K: Key, V: View> {
    entries: Vec<(K, V)>,
}

impl<K: Key, V: View> View for KeyMap<K, V> {
    type V = Seq<(K::V, V::V)>;

    closed spec fn view(&self) -> Seq<(K::V, V::V)> {
        self.entries@.map_values(|e: (K, V)| (e.0@, e.1@))
    }
}

impl<K: Key, V: View> KeyMap<K, V> {
    /// No key occurs twice.
    pub open spec fn wf(&self) -> bool {
        distinct_keys(self@)
    }

    /// The empty map.
    pub fn new() -> (r: Self)
        ensures
            r@ == Seq::<(K::V, V::V)>::empty(),
            r.wf(),
    {
        let r = KeyMap { entries: Vec::new() };
        assert(r@ =~= Seq::<(K::V, V::V)>::empty());
        r
    }

    /// The number of entries.
    pub fn len(&self) -> (n: usize)
        ensures
            n == self@.len(),
    {
        self.entries.len()
    }

    /// The position of the entry stored under `k`, if there is one.
    fn position(&self, k: &K) -> (r: Option<usize>)
        requires
            self.wf(),
        ensures
            match r {
                Some(i) => i < self@.len() && self@[i as int].0 == k@ && has_key(self@, k@)
                    && key_index(self@, k@) == i,
                None => !has_key(self@, k@),
            },
    {
        let n = self.entries.len();
        let mut i: usize = 0;
        while i < n
            invariant
                self.wf(),
                n == self.entries@.len(),
                i <= n,
                forall|j: int| 0 <= j < i ==> (#[trigger] self@[j]).0 != k@,
            decreases n - i,
        {
            if self.entries[i].0.same(k) {
                proof {
                    lemma_key_at(self@, i as int);
                }
                return Some(i);
            }
            i += 1;
        }
        None
    }

    /// Whether a value is stored under `k`.
    pub fn contains_key(&self, k: &K) -> (r: bool)
        requires
            self.wf(),
        ensures
            r == has_key(self@, k@),
    {
        self.position(k).is_some()
    }

    /// The value stored under `k`, if any.
    pub fn get(&self, k: &K) -> (r: Option<&V>)
        requires
            self.wf(),
        ensures
            match r {
                Some(v) => lookup(self@, k@) == Some(v@),
                None => lookup(self@, k@) is None,
            },
    {
        match self.position(k) {
            Some(i) => Some(&self.entries[i].1),
            None => None,
        }
    }

    /// Stores `v` under `k`, replacing what was stored there.
    pub fn put(&mut self, k: K, v: V)
        requires
            old(self).wf(),
        ensures
            final(self).wf(),
            final(self)@ == upsert(old(self)@, k@, v@),
    {
        let ghost kv = k@;
        let ghost vv = v@;
        match self.position(&k) {
            Some(i) => {
                self.entries.set(i, (k, v));
                assert(self@ =~= old(self)@.update(i as int, (kv, vv)));
            },
            None => {
                self.entries.push((k, v));
                assert(self@ =~= old(self)@.push((kv, vv)));
            },
        }
        proof {
            lemma_upsert(old(self)@, kv, vv);
        }
    }

    /// Removes what is stored under `k`.
    pub fn remove(&mut self, k: &K)
        requires
            old(self).wf(),
        ensures
            final(self).wf(),
            final(self)@ == without_key(old(self)@, k@),
    {
        match self.position(k) {
            Some(i) => {
                self.entries.remove(i);
                assert(self@ =~= old(self)@.remove(i as int));
            },
            None => {},
        }
        proof {
            lemma_without_key(old(self)@, k@);
        }
    }

    /// The entry at position `i`.
    pub fn entry(&self, i: usize) -> (e: (&K, &V))
        requires
            i < self@.len(),
        ensures
            (e.0@, e.1@) == self@[i as int],
    {
        (&self.entries[i].0, &self.entries[i].1)
    }
}

} // verus!
