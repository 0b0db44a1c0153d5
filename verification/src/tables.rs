//! The shared key/value tables.
//!
//! Both planes of the node exchange data through small bounded tables: maps
//! from peer address to a 64-bit value (`IpMap`) and the set of terms this
//! node has voted in (`TermSet`). The tables are modelled as sequences of
//! entries with pairwise-distinct keys and are specified through their
//! mathematical views, `Map<u32, u64>` and `Set<u64>`.

use vstd::prelude::*;
use vstd::seq_lib::*;
use vstd::set_lib::*;

verus! {

/// Does some entry of `s` carry the key `k`?
pub open spec fn has_key(s: Seq<(u32, u64)>, k: u32) -> bool {
    exists|i: int| 0 <= i < s.len() && (#[trigger] s[i]).0 == k
}

/// The value stored beside `k` in `s`.
pub open spec fn val_of(s: Seq<(u32, u64)>, k: u32) -> u64 {
    let i = choose|i: int| 0 <= i < s.len() && (#[trigger] s[i]).0 == k;
    s[i].1
}

/// The mapping that a sequence of key/value entries denotes.
pub open spec fn pairs_to_map(s: Seq<(u32, u64)>) -> Map<u32, u64> {
    Map::new(|k: u32| has_key(s, k), |k: u32| val_of(s, k))
}

/// Pairwise-distinct keys.
pub open spec fn keys_unique(s: Seq<(u32, u64)>) -> bool {
    forall|i: int, j: int|
        0 <= i < j < s.len() ==> (#[trigger] s[i]).0 != (#[trigger] s[j]).0
}

/// With distinct keys, the entry at index `i` is what the map stores.
pub proof fn lemma_entry_is_map_value(s: Seq<(u32, u64)>, i: int)
    requires
        keys_unique(s),
        0 <= i < s.len(),
    ensures
        pairs_to_map(s).dom().contains(s[i].0),
        pairs_to_map(s)[s[i].0] == s[i].1,
{
    let k = s[i].0;
    assert(has_key(s, k));
    let ci = choose|ci: int| 0 <= ci < s.len() && (#[trigger] s[ci]).0 == k;
    if ci < i {
        assert(s[ci].0 != s[i].0);
    } else if i < ci {
        assert(s[i].0 != s[ci].0);
    }
}

/// The key set of the map is the (finite) set of keys of the entries.
pub proof fn lemma_pairs_dom(s: Seq<(u32, u64)>)
    ensures
        pairs_to_map(s).dom() == s.map_values(|e: (u32, u64)| e.0).to_set(),
        pairs_to_map(s).dom().finite(),
        pairs_to_map(s).dom().len() <= s.len(),
        keys_unique(s) ==> pairs_to_map(s).dom().len() == s.len(),
{
    broadcast use seq_to_set_is_finite;

    let keys = s.map_values(|e: (u32, u64)| e.0);
    assert forall|k: u32| pairs_to_map(s).dom().contains(k) implies keys.to_set().contains(
        k,
    ) by {
        let i = choose|i: int| 0 <= i < s.len() && (#[trigger] s[i]).0 == k;
        assert(keys[i] == k);
    }
    assert forall|k: u32| keys.to_set().contains(k) implies pairs_to_map(s).dom().contains(
        k,
    ) by {
        let i = choose|i: int| 0 <= i < keys.len() && keys[i] == k;
        assert(s[i].0 == k);
    }
    assert(pairs_to_map(s).dom() =~= keys.to_set());
    keys.lemma_cardinality_of_set();
    if keys_unique(s) {
        assert forall|i: int, j: int|
            0 <= i < keys.len() && 0 <= j < keys.len() && i != j implies keys[i] != keys[j] by {
            if i < j {
                assert(s[i].0 != s[j].0);
            } else {
                assert(s[j].0 != s[i].0);
            }
        }
        keys.unique_seq_to_set();
    }
}

/// Replacing the value at index `i` turns the map into an `insert` of the
/// same key.
pub proof fn lemma_update_value(s: Seq<(u32, u64)>, i: int, v: u64)
    requires
        keys_unique(s),
        0 <= i < s.len(),
    ensures
        keys_unique(s.update(i, (s[i].0, v))),
        pairs_to_map(s.update(i, (s[i].0, v))) == pairs_to_map(s).insert(s[i].0, v),
{
    let k = s[i].0;
    let u = s.update(i, (k, v));
    assert(forall|j: int| 0 <= j < s.len() ==> (#[trigger] u[j]).0 == s[j].0);
    assert(keys_unique(u));
    let m1 = pairs_to_map(u);
    let m2 = pairs_to_map(s).insert(k, v);
    assert forall|k2: u32| m1.dom().contains(k2) implies m2.dom().contains(k2) by {
        let j = choose|j: int| 0 <= j < u.len() && (#[trigger] u[j]).0 == k2;
        assert(s[j].0 == k2);
    }
    assert forall|k2: u32| m2.dom().contains(k2) implies m1.dom().contains(k2) by {
        if k2 == k {
            assert(u[i].0 == k2);
        } else {
            let j = choose|j: int| 0 <= j < s.len() && (#[trigger] s[j]).0 == k2;
            assert(u[j].0 == k2);
        }
    }
    assert forall|k2: u32| m1.dom().contains(k2) implies m1[k2] == m2[k2] by {
        if k2 == k {
            lemma_entry_is_map_value(u, i);
        } else {
            let j = choose|j: int| 0 <= j < u.len() && (#[trigger] u[j]).0 == k2;
            assert(j != i);
            lemma_entry_is_map_value(u, j);
            lemma_entry_is_map_value(s, j);
        }
    }
    assert(m1 =~= m2);
}

/// Appending an entry with a fresh key turns the map into an `insert`.
pub proof fn lemma_push_entry(s: Seq<(u32, u64)>, k: u32, v: u64)
    requires
        keys_unique(s),
        !has_key(s, k),
    ensures
        keys_unique(s.push((k, v))),
        pairs_to_map(s.push((k, v))) == pairs_to_map(s).insert(k, v),
{
    let u = s.push((k, v));
    assert forall|i: int, j: int|
        0 <= i < j < u.len() implies (#[trigger] u[i]).0 != (#[trigger] u[j]).0 by {
        if j < u.len() - 1 {
            assert(s[i].0 != s[j].0);
        } else {
            assert(u[j] == (k, v));
            assert(u[i] == s[i]);
        }
    }
    let m1 = pairs_to_map(u);
    let m2 = pairs_to_map(s).insert(k, v);
    assert forall|k2: u32| m1.dom().contains(k2) implies m2.dom().contains(k2) by {
        let j = choose|j: int| 0 <= j < u.len() && (#[trigger] u[j]).0 == k2;
        if j < u.len() - 1 {
            assert(s[j].0 == k2);
        }
    }
    assert forall|k2: u32| m2.dom().contains(k2) implies m1.dom().contains(k2) by {
        if k2 == k {
            assert(u[u.len() - 1].0 == k2);
        } else {
            let j = choose|j: int| 0 <= j < s.len() && (#[trigger] s[j]).0 == k2;
            assert(u[j].0 == k2);
        }
    }
    assert forall|k2: u32| m1.dom().contains(k2) implies m1[k2] == m2[k2] by {
        if k2 == k {
            lemma_entry_is_map_value(u, u.len() - 1);
        } else {
            let j = choose|j: int| 0 <= j < u.len() && (#[trigger] u[j]).0 == k2;
            assert(j != u.len() - 1);
            lemma_entry_is_map_value(u, j);
            lemma_entry_is_map_value(s, j);
        }
    }
    assert(m1 =~= m2);
}

/// Removing the entry at index `i` turns the map into a `remove` of its key.
pub proof fn lemma_remove_entry(s: Seq<(u32, u64)>, i: int)
    requires
        keys_unique(s),
        0 <= i < s.len(),
    ensures
        keys_unique(s.remove(i)),
        pairs_to_map(s.remove(i)) == pairs_to_map(s).remove(s[i].0),
{
    let k = s[i].0;
    let u = s.remove(i);
    s.remove_ensures(i);
    assert forall|a: int, b: int|
        0 <= a < b < u.len() implies (#[trigger] u[a]).0 != (#[trigger] u[b]).0 by {
        let a0 = if a < i { a } else { a + 1 };
        let b0 = if b < i { b } else { b + 1 };
        assert(u[a] == s[a0]);
        assert(u[b] == s[b0]);
        assert(s[a0].0 != s[b0].0);
    }
    let m1 = pairs_to_map(u);
    let m2 = pairs_to_map(s).remove(k);
    assert forall|k2: u32| m1.dom().contains(k2) implies m2.dom().contains(k2) && m1[k2]
        == m2[k2] by {
        let j = choose|j: int| 0 <= j < u.len() && (#[trigger] u[j]).0 == k2;
        let j0 = if j < i { j } else { j + 1 };
        assert(u[j] == s[j0]);
        if j0 < i {
            assert(s[j0].0 != s[i].0);
        } else if i < j0 {
            assert(s[i].0 != s[j0].0);
        }
        lemma_entry_is_map_value(u, j);
        lemma_entry_is_map_value(s, j0);
    }
    assert forall|k2: u32| m2.dom().contains(k2) implies m1.dom().contains(k2) by {
        let j = choose|j: int| 0 <= j < s.len() && (#[trigger] s[j]).0 == k2;
        assert(j != i);
        let j1 = if j < i { j } else { j - 1 };
        assert(u[j1] == s[j]);
    }
    assert(m1 =~= m2);
}

/// The keys of `m` that carry the value `v`.
pub open spec fn value_keys(m: Map<u32, u64>, v: u64) -> Set<u32> {
    m.dom().filter(|k: u32| m[k] == v)
}

/// How many keys of `m` carry the value `v`.
pub open spec fn count_with_value(m: Map<u32, u64>, v: u64) -> nat {
    value_keys(m, v).len()
}

/// The keys of a given value form a finite subset of the key set.
pub proof fn lemma_value_keys_finite(m: Map<u32, u64>, v: u64)
    requires
        m.dom().finite(),
    ensures
        value_keys(m, v).finite(),
        value_keys(m, v).len() <= m.dom().len(),
{
    assert(value_keys(m, v).subset_of(m.dom()));
    vstd::set_lib::lemma_len_subset(value_keys(m, v), m.dom());
}

/// Inserting a fresh key raises the count of its value by one and leaves
/// every other count unchanged.
pub proof fn lemma_count_insert(m: Map<u32, u64>, k: u32, x: u64, v: u64)
    requires
        m.dom().finite(),
        !m.dom().contains(k),
    ensures
        m.insert(k, x).dom().finite(),
        count_with_value(m.insert(k, x), v) == count_with_value(m, v) + (if x == v {
            1nat
        } else {
            0nat
        }),
{
    let m2 = m.insert(k, x);
    lemma_value_keys_finite(m, v);
    if x == v {
        assert(value_keys(m2, v) =~= value_keys(m, v).insert(k));
        assert(!value_keys(m, v).contains(k));
        vstd::set::axiom_set_insert_len(value_keys(m, v), k);
    } else {
        assert(value_keys(m2, v) =~= value_keys(m, v));
    }
}

/// A map from peer IPv4 addresses (host order) to 64-bit values: timestamps,
/// latencies, or recorded votes.
pub struct IpMap {
    entries: Vec<(u32, u64)>,
}

impl View for IpMap {
    type V = Map<u32, u64>;

    closed spec fn view(&self) -> Map<u32, u64> {
        pairs_to_map(self.entries@)
    }
}

impl IpMap {
    /// The representation keeps one entry per key.
    pub closed spec fn wf(self) -> bool {
        keys_unique(self.entries@)
    }

    /// An empty table.
    pub fn new() -> (r: IpMap)
        ensures
            r.wf(),
            r@ == Map::<u32, u64>::empty(),
    {
        let r = IpMap { entries: Vec::new() };
        proof {
            assert(r@ =~= Map::<u32, u64>::empty());
        }
        r
    }

    /// The number of keys in the table.
    pub fn len(&self) -> (r: usize)
        requires
            self.wf(),
        ensures
            r == self@.dom().len(),
    {
        proof {
            lemma_pairs_dom(self.entries@);
        }
        self.entries.len()
    }

    /// Look a key up.
    pub fn get(&self, k: u32) -> (r: Option<u64>)
        requires
            self.wf(),
        ensures
            r == if self@.dom().contains(k) {
                Some(self@[k])
            } else {
                None::<u64>
            },
    {
        let n = self.entries.len();
        let mut i: usize = 0;
        while i < n
            invariant
                n == self.entries@.len(),
                i <= n,
                keys_unique(self.entries@),
                forall|j: int| 0 <= j < i ==> (#[trigger] self.entries@[j]).0 != k,
            decreases n - i,
        {
            let e = self.entries[i];
            if e.0 == k {
                proof {
                    lemma_entry_is_map_value(self.entries@, i as int);
                }
                return Some(e.1);
            }
            i += 1;
        }
        proof {
            assert(!has_key(self.entries@, k));
        }
        None
    }

    /// Insert a key/value entry, replacing any entry with the same key.
    pub fn insert(&mut self, k: u32, v: u64)
        requires
            old(self).wf(),
        ensures
            final(self).wf(),
            final(self)@ == old(self)@.insert(k, v),
    {
        let n = self.entries.len();
        let mut i: usize = 0;
        while i < n
            invariant
                self == old(self),
                n == self.entries@.len(),
                i <= n,
                keys_unique(self.entries@),
                forall|j: int| 0 <= j < i ==> (#[trigger] self.entries@[j]).0 != k,
            decreases n - i,
        {
            let e = self.entries[i];
            if e.0 == k {
                proof {
                    lemma_update_value(self.entries@, i as int, v);
                }
                self.entries[i] = (k, v);
                return ;
            }
            i += 1;
        }
        proof {
            assert(!has_key(self.entries@, k));
            lemma_push_entry(self.entries@, k, v);
        }
        self.entries.push((k, v));
    }

    /// Remove a key if it is present.
    pub fn remove(&mut self, k: u32)
        requires
            old(self).wf(),
        ensures
            final(self).wf(),
            final(self)@ == old(self)@.remove(k),
            !old(self)@.dom().contains(k) ==> *final(self) == *old(self),
    {
        let n = self.entries.len();
        let mut i: usize = 0;
        while i < n
            invariant
                self == old(self),
                n == self.entries@.len(),
                i <= n,
                keys_unique(self.entries@),
                forall|j: int| 0 <= j < i ==> (#[trigger] self.entries@[j]).0 != k,
            decreases n - i,
        {
            let e = self.entries[i];
            if e.0 == k {
                proof {
                    lemma_remove_entry(self.entries@, i as int);
                }
                self.entries.remove(i);
                return ;
            }
            i += 1;
        }
        proof {
            assert(!has_key(self.entries@, k));
            assert(self@ =~= self@.remove(k));
        }
    }

    /// Set the value of every key to zero, keeping the key set.
    pub fn zero_all(&mut self)
        requires
            old(self).wf(),
        ensures
            final(self).wf(),
            final(self)@.dom() == old(self)@.dom(),
            forall|k: u32| old(self)@.dom().contains(k) ==> final(self)@[k] == 0,
    {
        let n = self.entries.len();
        let mut i: usize = 0;
        while i < n
            invariant
                n == self.entries@.len(),
                i <= n,
                keys_unique(self.entries@),
                forall|j: int|
                    0 <= j < n ==> (#[trigger] self.entries@[j]).0 == old(self).entries@[j].0,
                forall|j: int| 0 <= j < i ==> (#[trigger] self.entries@[j]).1 == 0,
            decreases n - i,
        {
            let e = self.entries[i];
            proof {
                lemma_update_value(self.entries@, i as int, 0);
            }
            self.entries[i] = (e.0, 0u64);
            i += 1;
        }
        proof {
            let s = self.entries@;
            let s0 = old(self).entries@;
            assert forall|k: u32| self@.dom().contains(k) <==> old(self)@.dom().contains(k) by {
                if has_key(s, k) {
                    let j = choose|j: int| 0 <= j < s.len() && (#[trigger] s[j]).0 == k;
                    assert(s0[j].0 == k);
                }
                if has_key(s0, k) {
                    let j = choose|j: int| 0 <= j < s0.len() && (#[trigger] s0[j]).0 == k;
                    assert(s[j].0 == k);
                }
            }
            assert(self@.dom() =~= old(self)@.dom());
            assert forall|k: u32| old(self)@.dom().contains(k) implies self@[k] == 0 by {
                let j = choose|j: int| 0 <= j < s.len() && (#[trigger] s[j]).0 == k;
                lemma_entry_is_map_value(s, j);
            }
        }
    }

    /// How many keys carry the value `v`.
    pub fn count_value(&self, v: u64) -> (r: u64)
        requires
            self.wf(),
        ensures
            r == count_with_value(self@, v),
    {
        let n = self.entries.len();
        let mut c: u64 = 0;
        let mut i: usize = 0;
        proof {
            assert(count_with_value(pairs_to_map(self.entries@.take(0)), v) == 0) by {
                let m0 = pairs_to_map(self.entries@.take(0));
                assert(value_keys(m0, v) =~= Set::<u32>::empty());
                broadcast use vstd::set::axiom_set_empty_len;
            }
        }
        while i < n
            invariant
                self.wf(),
                n == self.entries@.len(),
                i <= n,
                c <= i,
                c == count_with_value(pairs_to_map(self.entries@.take(i as int)), v),
            decreases n - i,
        {
            let e = self.entries[i];
            proof {
                let s = self.entries@;
                let pre = s.take(i as int);
                lemma_pairs_dom(pre);
                assert(keys_unique(pre));
                assert(!has_key(pre, s[i as int].0)) by {
                    if has_key(pre, s[i as int].0) {
                        let j = choose|j: int|
                            0 <= j < pre.len() && (#[trigger] pre[j]).0 == s[i as int].0;
                        assert(s[j].0 != s[i as int].0);
                    }
                }
                lemma_push_entry(pre, s[i as int].0, s[i as int].1);
                assert(s.take(i + 1) =~= pre.push(s[i as int]));
                lemma_count_insert(pairs_to_map(pre), s[i as int].0, s[i as int].1, v);
            }
            if e.1 == v {
                c += 1;
            }
            i += 1;
        }
        proof {
            assert(self.entries@.take(n as int) =~= self.entries@);
        }
        c
    }

    /// All keys, each exactly once.
    pub fn keys(&self) -> (r: Vec<u32>)
        requires
            self.wf(),
        ensures
            r@.no_duplicates(),
            r@.len() == self@.dom().len(),
            forall|j: int| 0 <= j < r@.len() ==> self@.dom().contains(#[trigger] r@[j]),
            forall|k: u32| self@.dom().contains(k) ==> r@.contains(k),
    {
        let n = self.entries.len();
        let mut r: Vec<u32> = Vec::new();
        let mut i: usize = 0;
        while i < n
            invariant
                n == self.entries@.len(),
                i <= n,
                keys_unique(self.entries@),
                r@.len() == i,
                forall|j: int| 0 <= j < i ==> r@[j] == (#[trigger] self.entries@[j]).0,
            decreases n - i,
        {
            let e = self.entries[i];
            r.push(e.0);
            i += 1;
        }
        proof {
            let s = self.entries@;
            assert forall|a: int, b: int|
                0 <= a < r@.len() && 0 <= b < r@.len() && a != b implies r@[a] != r@[b] by {
                if a < b {
                    assert(s[a].0 != s[b].0);
                } else {
                    assert(s[b].0 != s[a].0);
                }
            }
            lemma_pairs_dom(s);
            assert forall|j: int| 0 <= j < r@.len() implies self@.dom().contains(
                #[trigger] r@[j],
            ) by {
                assert(s[j].0 == r@[j]);
            }
            assert forall|k: u32| self@.dom().contains(k) implies r@.contains(k) by {
                let j = choose|j: int| 0 <= j < s.len() && (#[trigger] s[j]).0 == k;
                assert(r@[j] == k);
            }
        }
        r
    }
}

/// The set of terms this node has voted in, bounded by
/// `crate::config::VOTE_TERMS_CAPACITY`.
pub struct TermSet {
    terms: Vec<u64>,
}

impl View for TermSet {
    type V = Set<u64>;

    closed spec fn view(&self) -> Set<u64> {
        self.terms@.to_set()
    }
}

impl TermSet {
    /// The representation keeps each term once.
    pub closed spec fn wf(self) -> bool {
        self.terms@.no_duplicates()
    }

    /// An empty set.
    pub fn new() -> (r: TermSet)
        ensures
            r.wf(),
            r@ == Set::<u64>::empty(),
    {
        let r = TermSet { terms: Vec::new() };
        proof {
            assert(r@ =~= Set::<u64>::empty());
        }
        r
    }

    /// Is the term in the set?
    pub fn contains(&self, t: u64) -> (r: bool)
        requires
            self.wf(),
        ensures
            r == self@.contains(t),
    {
        let n = self.terms.len();
        let mut i: usize = 0;
        while i < n
            invariant
                n == self.terms@.len(),
                i <= n,
                forall|j: int| 0 <= j < i ==> self.terms@[j] != t,
            decreases n - i,
        {
            if self.terms[i] == t {
                return true;
            }
            i += 1;
        }
        proof {
            assert(!self.terms@.contains(t));
        }
        false
    }

    /// Insert a term. Fails, leaving the set unchanged, only when the set is
    /// full and the term is new; inserting a present term succeeds without
    /// change.
    pub fn insert(&mut self, t: u64) -> (r: bool)
        requires
            old(self).wf(),
        ensures
            final(self).wf(),
            old(self)@.contains(t) ==> r && *final(self) == *old(self),
            !old(self)@.contains(t) && old(self)@.len() < crate::config::VOTE_TERMS_CAPACITY ==> r
                && final(self)@ == old(self)@.insert(t),
            !old(self)@.contains(t) && old(self)@.len() >= crate::config::VOTE_TERMS_CAPACITY ==> !r
                && *final(self) == *old(self),
    {
        proof {
            self.terms@.unique_seq_to_set();
        }
        if self.contains(t) {
            return true;
        }
        if self.terms.len() >= crate::config::VOTE_TERMS_CAPACITY {
            return false;
        }
        proof {
            let s = self.terms@;
            let u = s.push(t);
            assert forall|x: u64| u.contains(x) implies s.contains(x) || x == t by {
                let j = choose|j: int| 0 <= j < u.len() && u[j] == x;
                if j < u.len() - 1 {
                    assert(s[j] == x);
                }
            }
            assert forall|x: u64| s.contains(x) implies u.contains(x) by {
                let j = choose|j: int| 0 <= j < s.len() && s[j] == x;
                assert(u[j] == x);
            }
            assert(u[u.len() - 1] == t);
            assert(u.contains(t));
            assert(u.to_set() =~= s.to_set().insert(t));
            assert forall|a: int, b: int|
                0 <= a < u.len() && 0 <= b < u.len() && a != b implies u[a] != u[b] by {
                if a < u.len() - 1 && b < u.len() - 1 {
                    assert(s[a] != s[b]);
                } else if a == u.len() - 1 {
                    assert(s[b] == u[b]);
                    assert(s.contains(u[b]));
                } else if b == u.len() - 1 {
                    assert(s[a] == u[a]);
                    assert(s.contains(u[a]));
                }
            }
        }
        self.terms.push(t);
        true
    }

    /// The number of terms in the set.
    pub fn len(&self) -> (r: usize)
        requires
            self.wf(),
        ensures
            r == self@.len(),
    {
        proof {
            self.terms@.unique_seq_to_set();
        }
        self.terms.len()
    }
}

} // verus!
