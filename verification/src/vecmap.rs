//! A small association map kept in a `Vec`, used as the contract storage of
//! every ledger in this crate. Its abstract model is a `Map` from keys to
//! values; each key occurs at most once among the entries.
use vstd::prelude::*;

verus! {

/// Keys that executable code can compare for equality.
pub trait MapKey: Sized {
    fn same_key(&self, other: &Self) -> (b: bool)
        ensures
            b == (*self == *other),
    ;
}

impl MapKey for u64 {
    fn same_key(&self, other: &Self) -> (b: bool) {
        *self == *other
    }
}

impl MapKey for (u64, u64) {
    fn same_key(&self, other: &Self) -> (b: bool) {
        self.0 == other.0 && self.1 == other.1
    }
}

/// A finite map stored as a list of `(key, value)` entries.
pub struct VecMap<K, V> {
    entries: Vec<(K, V)>,
}

/// Whether `k` is the key of some entry of `s`.
pub open spec fn seq_has_key<K, V>(s: Seq<(K, V)>, k: K) -> bool {
    exists|i: int| 0 <= i < s.len() && (#[trigger] s[i]).0 == k
}

/// The position of the entry with key `k` in `s`.
pub open spec fn seq_key_index<K, V>(s: Seq<(K, V)>, k: K) -> int {
    choose|i: int| 0 <= i < s.len() && (#[trigger] s[i]).0 == k
}

/// No key occurs twice among the entries of `s`.
pub open spec fn seq_keys_distinct<K, V>(s: Seq<(K, V)>) -> bool {
    forall|i: int, j: int| 0 <= i < s.len() && 0 <= j < s.len() && i != j ==> (#[trigger] s[i]).0 != (#[trigger] s[j]).0
}

/// The map that a list of entries with distinct keys stands for.
pub open spec fn seq_to_map<K, V>(s: Seq<(K, V)>) -> Map<K, V> {
    Map::new(|k: K| seq_has_key(s, k), |k: K| s[seq_key_index(s, k)].1)
}

/// Sum of the values of a list of entries.
pub open spec fn seq_value_sum<K>(s: Seq<(K, i128)>) -> int
    decreases s.len(),
{
    if s.len() == 0 {
        0
    } else {
        seq_value_sum(s.drop_last()) + s.last().1
    }
}

pub proof fn lemma_key_index<K, V>(s: Seq<(K, V)>, i: int)
    requires
        seq_keys_distinct(s),
        0 <= i < s.len(),
    ensures
        seq_has_key(s, s[i].0),
        seq_key_index(s, s[i].0) == i,
{
    assert(seq_has_key(s, s[i].0));
    let j = seq_key_index(s, s[i].0);
    assert(s[j].0 == s[i].0);
}

proof fn lemma_value_sum_push<K>(s: Seq<(K, i128)>, e: (K, i128))
    ensures
        seq_value_sum(s.push(e)) == seq_value_sum(s) + e.1,
{
    assert(s.push(e).drop_last() =~= s);
}

proof fn lemma_value_sum_update<K>(s: Seq<(K, i128)>, i: int, e: (K, i128))
    requires
        0 <= i < s.len(),
    ensures
        seq_value_sum(s.update(i, e)) == seq_value_sum(s) - s[i].1 + e.1,
    decreases s.len(),
{
    if i == s.len() - 1 {
        assert(s.update(i, e).drop_last() =~= s.drop_last());
    } else {
        lemma_value_sum_update(s.drop_last(), i, e);
        assert(s.update(i, e).drop_last() =~= s.drop_last().update(i, e));
    }
}

proof fn lemma_value_sum_nonneg<K>(s: Seq<(K, i128)>)
    requires
        forall|j: int| 0 <= j < s.len() ==> (#[trigger] s[j]).1 >= 0,
    ensures
        seq_value_sum(s) >= 0,
    decreases s.len(),
{
    if s.len() > 0 {
        lemma_value_sum_nonneg(s.drop_last());
    }
}

proof fn lemma_value_le_sum<K>(s: Seq<(K, i128)>, i: int)
    requires
        forall|j: int| 0 <= j < s.len() ==> (#[trigger] s[j]).1 >= 0,
        0 <= i < s.len(),
    ensures
        s[i].1 <= seq_value_sum(s),
    decreases s.len(),
{
    if i == s.len() - 1 {
        lemma_value_sum_nonneg(s.drop_last());
    } else {
        lemma_value_le_sum(s.drop_last(), i);
    }
}

proof fn lemma_value_sum_prefix<K>(s: Seq<(K, i128)>, j: int)
    requires
        forall|i: int| 0 <= i < s.len() ==> (#[trigger] s[i]).1 >= 0,
        0 <= j <= s.len(),
    ensures
        seq_value_sum(s.take(j)) <= seq_value_sum(s),
    decreases s.len(),
{
    if j == s.len() {
        assert(s.take(j) =~= s);
    } else {
        lemma_value_sum_prefix(s.drop_last(), j);
        assert(s.drop_last().take(j) =~= s.take(j));
    }
}

/// Whether no value among `entries` is negative and the values add up to
/// `total`.
pub fn nonnegative_values_sum_to<K>(entries: &Vec<(K, i128)>, total: i128) -> (b: bool)
    ensures
        b == ((forall|i: int| 0 <= i < entries@.len() ==> (#[trigger] entries@[i]).1 >= 0)
            && seq_value_sum(entries@) == total),
{
    let n = entries.len();
    let mut i: usize = 0;
    while i < n
        invariant
            n == entries@.len(),
            i <= n,
            forall|j: int| 0 <= j < i ==> (#[trigger] entries@[j]).1 >= 0,
        decreases n - i,
    {
        if entries[i].1 < 0 {
            return false;
        }
        i = i + 1;
    }
    let mut acc: i128 = 0;
    i = 0;
    while i < n
        invariant
            n == entries@.len(),
            i <= n,
            forall|j: int| 0 <= j < n ==> (#[trigger] entries@[j]).1 >= 0,
            acc == seq_value_sum(entries@.take(i as int)),
        decreases n - i,
    {
        let v = entries[i].1;
        assert(entries@.take(i + 1).drop_last() =~= entries@.take(i as int));
        if acc > i128::MAX - v {
            proof {
                lemma_value_sum_prefix(entries@, i + 1);
            }
            return false;
        }
        acc = acc + v;
        i = i + 1;
    }
    assert(entries@.take(n as int) =~= entries@);
    acc == total
}

impl<K, V> View for VecMap<K, V> {
    type V = Map<K, V>;

    closed spec fn view(&self) -> Map<K, V> {
        seq_to_map(self.entries@)
    }
}

impl<K, V> VecMap<K, V> {
    /// The entries hold each key at most once.
    pub closed spec fn wf(self) -> bool {
        seq_keys_distinct(self.entries@)
    }

    /// The stored entries, in storage order.
    pub closed spec fn entry_seq(self) -> Seq<(K, V)> {
        self.entries@
    }

    pub fn new() -> (m: Self)
        ensures
            m.wf(),
            m@ == Map::<K, V>::empty(),
    {
        let m = VecMap { entries: Vec::new() };
        assert(m@ =~= Map::<K, V>::empty());
        m
    }
}

impl<K, V> VecMap<K, V> {
    /// The entries, in storage order, giving up the map.
    pub fn into_entries(self) -> (v: Vec<(K, V)>)
        ensures
            v@ == self.entry_seq(),
    {
        self.entries
    }

    /// The number of entries.
    pub fn len(&self) -> (n: usize)
        ensures
            n == self.entry_seq().len(),
    {
        self.entries.len()
    }

    /// The entry at position `i` in storage order.
    pub fn entry_at(&self, i: usize) -> (e: &(K, V))
        requires
            i < self.entry_seq().len(),
        ensures
            *e == self.entry_seq()[i as int],
    {
        &self.entries[i]
    }

    /// The map is the one its entries stand for, and the entries hold each
    /// key once.
    pub proof fn lemma_entries(self)
        requires
            self.wf(),
        ensures
            seq_keys_distinct(self.entry_seq()),
            self@ == seq_to_map(self.entry_seq()),
    {
    }
}

impl<K: MapKey, V> VecMap<K, V> {
    /// The map whose entries are `entries`, if no key occurs twice in them.
    pub fn from_entries(entries: Vec<(K, V)>) -> (r: Option<Self>)
        ensures
            r is Some <==> seq_keys_distinct(entries@),
            r matches Some(m) ==> m.wf() && m.entry_seq() == entries@ && m@ == seq_to_map(entries@),
    {
        let n = entries.len();
        let mut i: usize = 0;
        while i < n
            invariant
                n == entries@.len(),
                i <= n,
                forall|a: int, b: int|
                    0 <= a < i && 0 <= b < i && a != b ==> (#[trigger] entries@[a]).0 != (
                    #[trigger] entries@[b]).0,
            decreases n - i,
        {
            let mut j: usize = 0;
            while j < i
                invariant
                    n == entries@.len(),
                    j <= i < n,
                    forall|b: int| 0 <= b < j ==> (#[trigger] entries@[b]).0 != entries@[i as int].0,
                decreases i - j,
            {
                if entries[j].0.same_key(&entries[i].0) {
                    assert(!seq_keys_distinct(entries@)) by {
                        assert(entries@[j as int].0 == entries@[i as int].0);
                    }
                    return None;
                }
                j = j + 1;
            }
            i = i + 1;
        }
        Some(VecMap { entries })
    }
}

impl<K: MapKey, V> VecMap<K, V> {
    fn find(&self, k: &K) -> (r: Option<usize>)
        requires
            self.wf(),
        ensures
            match r {
                Some(i) => i < self.entries@.len() && self.entries@[i as int].0 == *k,
                None => !seq_has_key(self.entries@, *k),
            },
            r is Some <==> self@.contains_key(*k),
    {
        let mut i: usize = 0;
        while i < self.entries.len()
            invariant
                i <= self.entries@.len(),
                forall|j: int| 0 <= j < i ==> (#[trigger] self.entries@[j]).0 != *k,
            decreases self.entries@.len() - i,
        {
            if self.entries[i].0.same_key(k) {
                return Some(i);
            }
            i = i + 1;
        }
        None
    }

    /// Whether `k` has an entry.
    pub fn contains_key(&self, k: &K) -> (b: bool)
        requires
            self.wf(),
        ensures
            b == self@.contains_key(*k),
    {
        self.find(k).is_some()
    }

    /// The value stored under `k`, if any.
    pub fn get(&self, k: &K) -> (r: Option<&V>)
        requires
            self.wf(),
        ensures
            match r {
                Some(v) => self@.contains_key(*k) && *v == self@[*k],
                None => !self@.contains_key(*k),
            },
    {
        match self.find(k) {
            Some(i) => {
                proof {
                    lemma_key_index(self.entries@, i as int);
                }
                Some(&self.entries[i].1)
            },
            None => None,
        }
    }

    /// Stores `v` under `k`, replacing any earlier value.
    pub fn insert(&mut self, k: K, v: V)
        requires
            old(self).wf(),
        ensures
            final(self).wf(),
            final(self)@ == old(self)@.insert(k, v),
            old(self)@.contains_key(k) ==> final(self).entry_seq() == old(self).entry_seq().update(
                seq_key_index(old(self).entry_seq(), k),
                (k, v),
            ),
            !old(self)@.contains_key(k) ==> final(self).entry_seq() == old(self).entry_seq().push((k, v)),
    {
        let ghost s0 = self.entries@;
        match self.find(&k) {
            Some(i) => {
                proof {
                    lemma_key_index(s0, i as int);
                }
                self.entries.set(i, (k, v));
                let ghost s1 = self.entries@;
                assert(s1 == s0.update(i as int, (k, v)));
                assert forall|a: int, b: int| 0 <= a < s1.len() && 0 <= b < s1.len() && a != b
                    implies (#[trigger] s1[a]).0 != (#[trigger] s1[b]).0 by {
                    assert(s0[a].0 == s1[a].0);
                    assert(s0[b].0 == s1[b].0);
                }
                assert(self@ =~= old(self)@.insert(k, v)) by {
                    assert forall|x: K| #![auto] self@.dom().contains(x) == old(self)@.insert(k, v).dom().contains(x) by {
                        if seq_has_key(s0, x) {
                            let j = seq_key_index(s0, x);
                            assert(s1[j].0 == x);
                        }
                        if seq_has_key(s1, x) {
                            let j = seq_key_index(s1, x);
                            assert(s0[j].0 == x);
                        }
                    }
                    assert forall|x: K| #![auto] self@.contains_key(x) implies self@[x] == old(self)@.insert(k, v)[x] by {
                        let j = seq_key_index(s1, x);
                        lemma_key_index(s1, j);
                        if x != k {
                            lemma_key_index(s0, j);
                        }
                    }
                }
            },
            None => {
                self.entries.push((k, v));
                let ghost s1 = self.entries@;
                assert(s1 == s0.push((k, v)));
                assert forall|a: int, b: int| 0 <= a < s1.len() && 0 <= b < s1.len() && a != b
                    implies (#[trigger] s1[a]).0 != (#[trigger] s1[b]).0 by {
                    if a < s0.len() && b < s0.len() {
                        assert(s0[a].0 == s1[a].0);
                        assert(s0[b].0 == s1[b].0);
                    } else if a < s0.len() {
                        assert(s0[a].0 == s1[a].0);
                    } else {
                        assert(s0[b].0 == s1[b].0);
                    }
                }
                assert(self@ =~= old(self)@.insert(k, v)) by {
                    assert forall|x: K| #![auto] self@.dom().contains(x) == old(self)@.insert(k, v).dom().contains(x) by {
                        if seq_has_key(s0, x) {
                            let j = seq_key_index(s0, x);
                            assert(s1[j].0 == x);
                        }
                        if x == k {
                            assert(s1[s0.len() as int].0 == x);
                        }
                        if seq_has_key(s1, x) && x != k {
                            let j = seq_key_index(s1, x);
                            assert(j < s0.len());
                            assert(s0[j].0 == x);
                        }
                    }
                    assert forall|x: K| #![auto] self@.contains_key(x) implies self@[x] == old(self)@.insert(k, v)[x] by {
                        let j = seq_key_index(s1, x);
                        lemma_key_index(s1, j);
                        if x != k {
                            assert(j < s0.len());
                            lemma_key_index(s0, j);
                        }
                    }
                }
            },
        }
    }

    /// Removes the entry of `k`, giving back its value if there was one.
    pub fn remove(&mut self, k: &K) -> (r: Option<V>)
        requires
            old(self).wf(),
        ensures
            final(self).wf(),
            final(self)@ == old(self)@.remove(*k),
            match r {
                Some(v) => old(self)@.contains_key(*k) && v == old(self)@[*k],
                None => !old(self)@.contains_key(*k),
            },
    {
        let ghost s0 = self.entries@;
        match self.find(k) {
            Some(i) => {
                proof {
                    lemma_key_index(s0, i as int);
                }
                let e = self.entries.remove(i);
                let ghost s1 = self.entries@;
                assert(s1 == s0.remove(i as int));
                assert forall|a: int| 0 <= a < s1.len() implies #[trigger] s1[a] == s0[if a < i { a } else { a + 1 }] by {}
                assert forall|a: int, b: int| 0 <= a < s1.len() && 0 <= b < s1.len() && a != b
                    implies (#[trigger] s1[a]).0 != (#[trigger] s1[b]).0 by {
                    let a0 = if a < i { a } else { a + 1 };
                    let b0 = if b < i { b } else { b + 1 };
                    assert(s1[a] == s0[a0]);
                    assert(s1[b] == s0[b0]);
                }
                assert(self@ =~= old(self)@.remove(*k)) by {
                    assert forall|x: K| #![auto] self@.dom().contains(x) == old(self)@.remove(*k).dom().contains(x) by {
                        if seq_has_key(s0, x) && x != *k {
                            let j = seq_key_index(s0, x);
                            assert(j != i);
                            let j1 = if j < i { j } else { j - 1 };
                            assert(s1[j1] == s0[j]);
                        }
                        if seq_has_key(s1, x) {
                            let j = seq_key_index(s1, x);
                            let j0 = if j < i { j } else { j + 1 };
                            assert(s1[j] == s0[j0]);
                            assert(j0 != i as int);
                        }
                    }
                    assert forall|x: K| #![auto] self@.contains_key(x) implies self@[x] == old(self)@.remove(*k)[x] by {
                        let j = seq_key_index(s1, x);
                        lemma_key_index(s1, j);
                        let j0 = if j < i { j } else { j + 1 };
                        assert(s1[j] == s0[j0]);
                        lemma_key_index(s0, j0);
                    }
                }
                Some(e.1)
            },
            None => {
                assert(self@ =~= old(self)@.remove(*k));
                None
            },
        }
    }
}

impl<K: MapKey> VecMap<K, i128> {
    /// Sum of all stored values.
    pub closed spec fn value_sum(self) -> int {
        seq_value_sum(self.entries@)
    }

    /// The sum of values is that of the stored entries.
    pub proof fn lemma_value_sum_of_entries(self)
        ensures
            self.value_sum() == seq_value_sum(self.entry_seq()),
    {
    }

    /// An empty map has value sum 0.
    pub proof fn lemma_empty_sum(self)
        requires
            self.wf(),
            self@ == Map::<K, i128>::empty(),
        ensures
            self.value_sum() == 0,
    {
        if self.entries@.len() > 0 {
            lemma_key_index(self.entries@, 0);
            assert(self@.contains_key(self.entries@[0].0));
        }
    }

    /// With no negative value stored, every stored value is at most the sum
    /// of all values, and that sum is not negative.
    pub proof fn lemma_value_bounded_by_sum(self, k: K)
        requires
            self.wf(),
            forall|x: K| #[trigger] self@.contains_key(x) ==> self@[x] >= 0,
        ensures
            self.value_sum() >= 0,
            self@.contains_key(k) ==> self@[k] <= self.value_sum(),
    {
        let s = self.entries@;
        assert forall|j: int| 0 <= j < s.len() implies (#[trigger] s[j]).1 >= 0 by {
            lemma_key_index(s, j);
            assert(self@.contains_key(s[j].0));
        }
        lemma_value_sum_nonneg(s);
        if self@.contains_key(k) {
            lemma_value_le_sum(s, seq_key_index(s, k));
        }
    }

    /// Stores `v` under `k`; the sum of values changes by `v` less the
    /// earlier value under `k` (0 where there was none).
    pub fn insert_amount(&mut self, k: K, v: i128)
        requires
            old(self).wf(),
        ensures
            final(self).wf(),
            final(self)@ == old(self)@.insert(k, v),
            final(self).value_sum() == old(self).value_sum() - (if old(self)@.contains_key(k) {
                old(self)@[k] as int
            } else {
                0
            }) + v,
    {
        let ghost s0 = self.entries@;
        self.insert(k, v);
        proof {
            if seq_has_key(s0, k) {
                lemma_value_sum_update(s0, seq_key_index(s0, k), (k, v));
            } else {
                lemma_value_sum_push(s0, (k, v));
            }
        }
    }
}

} // verus!
