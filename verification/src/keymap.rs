//! Small verified containers keyed by `u64`: a map backed by a vector of
//! entries with pairwise distinct keys, and a set backed by a vector of
//! distinct elements. Their mathematical views are `Map<u64, V>` and
//! `Set<u64>`.
use vstd::prelude::*;

verus! {

/// A finite map from `u64` keys to values of type `V`.
pub struct KeyMap<V> {
    entries: Vec<(u64, V)>,
}

/// A finite set of `u64` elements.
pub struct KeySet {
    items: Vec<u64>,
}

spec fn distinct_keys<V>(s: Seq<(u64, V)>) -> bool {
    forall|i: int, j: int| 0 <= i < j < s.len() ==> (#[trigger] s[i]).0 != (#[trigger] s[j]).0
}

spec fn entries_to_map<V>(s: Seq<(u64, V)>) -> Map<u64, V>
    decreases s.len(),
{
    if s.len() == 0 {
        Map::empty()
    } else {
        entries_to_map(s.drop_last()).insert(s.last().0, s.last().1)
    }
}

proof fn lemma_entries_to_map_domain<V>(s: Seq<(u64, V)>, k: u64)
    ensures
        entries_to_map(s).contains_key(k) <==> exists|i: int|
            0 <= i < s.len() && (#[trigger] s[i]).0 == k,
    decreases s.len(),
{
    if s.len() > 0 {
        lemma_entries_to_map_domain(s.drop_last(), k);
        if s.last().0 == k {
            assert((s[s.len() - 1]).0 == k);
        } else if entries_to_map(s).contains_key(k) {
            let i = choose|i: int| 0 <= i < s.drop_last().len() && (#[trigger] s.drop_last()[i]).0 == k;
            assert((s[i]).0 == k);
        } else {
            assert forall|i: int| 0 <= i < s.len() implies (#[trigger] s[i]).0 != k by {
                if i < s.len() - 1 {
                    assert(s.drop_last()[i] == s[i]);
                }
            }
        }
    }
}

proof fn lemma_entries_to_map_index<V>(s: Seq<(u64, V)>, i: int)
    requires
        distinct_keys(s),
        0 <= i < s.len(),
    ensures
        entries_to_map(s).contains_key((s[i]).0),
        entries_to_map(s)[(s[i]).0] == (s[i]).1,
    decreases s.len(),
{
    if i < s.len() - 1 {
        lemma_entries_to_map_index(s.drop_last(), i);
        assert(s.drop_last()[i] == s[i]);
    }
}

proof fn lemma_entries_to_map_remove<V>(s: Seq<(u64, V)>, i: int)
    requires
        distinct_keys(s),
        0 <= i < s.len(),
    ensures
        entries_to_map(s.remove(i)) == entries_to_map(s).remove((s[i]).0),
    decreases s.len(),
{
    let k = (s[i]).0;
    if i == s.len() - 1 {
        assert(s.remove(i) =~= s.drop_last());
        lemma_entries_to_map_domain(s.drop_last(), k);
        assert forall|j: int| 0 <= j < s.drop_last().len() implies (#[trigger] s.drop_last()[j]).0
            != k by {
            assert(s.drop_last()[j] == s[j]);
        }
        assert(entries_to_map(s.drop_last()) =~= entries_to_map(s).remove(k));
    } else {
        assert(s.remove(i).drop_last() =~= s.drop_last().remove(i));
        assert(s.remove(i).last() == s.last());
        assert(s.drop_last()[i] == s[i]);
        assert(distinct_keys(s.drop_last())) by {
            assert forall|a: int, b: int|
                0 <= a < b < s.drop_last().len() implies (#[trigger] s.drop_last()[a]).0
                != (#[trigger] s.drop_last()[b]).0 by {
                assert(s.drop_last()[a] == s[a]);
                assert(s.drop_last()[b] == s[b]);
            }
        }
        lemma_entries_to_map_remove(s.drop_last(), i);
        assert(s.remove(i).len() > 0);
        assert(entries_to_map(s.remove(i)) == entries_to_map(s.drop_last().remove(i)).insert(
            s.last().0,
            s.last().1,
        ));
        assert((s.last()).0 != k);
        assert(entries_to_map(s.drop_last()).remove(k).insert(s.last().0, s.last().1)
            =~= entries_to_map(s.drop_last()).insert(s.last().0, s.last().1).remove(k));
    }
}

proof fn lemma_distinct_keys_remove<V>(s: Seq<(u64, V)>, i: int)
    requires
        distinct_keys(s),
        0 <= i < s.len(),
    ensures
        distinct_keys(s.remove(i)),
{
    assert forall|a: int, b: int| 0 <= a < b < s.remove(i).len() implies (#[trigger] s.remove(
        i,
    )[a]).0 != (#[trigger] s.remove(i)[b]).0 by {
        assert(s.remove(i)[a] == (if a < i {
            s[a]
        } else {
            s[a + 1]
        }));
        assert(s.remove(i)[b] == (if b < i {
            s[b]
        } else {
            s[b + 1]
        }));
    }
}

proof fn lemma_entries_to_map_len<V>(s: Seq<(u64, V)>)
    requires
        distinct_keys(s),
    ensures
        entries_to_map(s).dom().finite(),
        entries_to_map(s).len() == s.len(),
    decreases s.len(),
{
    if s.len() > 0 {
        assert(distinct_keys(s.drop_last())) by {
            assert forall|a: int, b: int|
                0 <= a < b < s.drop_last().len() implies (#[trigger] s.drop_last()[a]).0
                != (#[trigger] s.drop_last()[b]).0 by {
                assert(s.drop_last()[a] == s[a]);
                assert(s.drop_last()[b] == s[b]);
            }
        }
        lemma_entries_to_map_len(s.drop_last());
        lemma_entries_to_map_domain(s.drop_last(), s.last().0);
        assert forall|j: int| 0 <= j < s.drop_last().len() implies (#[trigger] s.drop_last()[j]).0
            != s.last().0 by {
            assert(s.drop_last()[j] == s[j]);
            assert(s[s.len() - 1].0 == s.last().0);
        }
        assert(!entries_to_map(s.drop_last()).contains_key(s.last().0));
        assert(entries_to_map(s).dom() =~= entries_to_map(s.drop_last()).dom().insert(s.last().0));
        vstd::set::axiom_set_insert_finite(entries_to_map(s.drop_last()).dom(), s.last().0);
        vstd::set::axiom_set_insert_len(entries_to_map(s.drop_last()).dom(), s.last().0);
    }
}

impl<V> KeyMap<V> {
    pub closed spec fn wf(&self) -> bool {
        distinct_keys(self.entries@)
    }

    pub closed spec fn as_map(&self) -> Map<u64, V> {
        entries_to_map(self.entries@)
    }

    pub fn new() -> (m: Self)
        ensures
            m.wf(),
            m@ == Map::<u64, V>::empty(),
    {
        KeyMap { entries: Vec::new() }
    }

    pub fn get(&self, k: u64) -> (r: Option<&V>)
        requires
            self.wf(),
        ensures
            (match r {
                Some(v) => self@.contains_key(k) && *v == self@[k],
                None => !self@.contains_key(k),
            }),
    {
        let n = self.entries.len();
        let mut idx: usize = 0;
        while idx < n
            invariant
                n == self.entries.len(),
                idx <= n,
                self.wf(),
                forall|j: int| 0 <= j < idx ==> (#[trigger] self.entries@[j]).0 != k,
            decreases n - idx,
        {
            if self.entries[idx].0 == k {
                proof {
                    lemma_entries_to_map_index(self.entries@, idx as int);
                }
                return Some(&self.entries[idx].1);
            }
            idx += 1;
        }
        proof {
            lemma_entries_to_map_domain(self.entries@, k);
        }
        None
    }

    pub fn contains_key(&self, k: u64) -> (r: bool)
        requires
            self.wf(),
        ensures
            r == self@.contains_key(k),
    {
        self.get(k).is_some()
    }

    pub fn len(&self) -> (n: usize)
        requires
            self.wf(),
        ensures
            n == self@.len(),
            self@.dom().finite(),
    {
        proof {
            lemma_entries_to_map_len(self.entries@);
        }
        self.entries.len()
    }

    /// The keys of all entries, each exactly once, in insertion order.
    pub fn keys(&self) -> (r: Vec<u64>)
        requires
            self.wf(),
        ensures
            r@.len() == self@.len(),
            forall|i: int, j: int| 0 <= i < j < r@.len() ==> r@[i] != r@[j],
            forall|k: u64| #[trigger] self@.contains_key(k) <==> r@.contains(k),
    {
        let n = self.entries.len();
        let mut r: Vec<u64> = Vec::new();
        let mut idx: usize = 0;
        while idx < n
            invariant
                n == self.entries.len(),
                idx <= n,
                self.wf(),
                r@.len() == idx,
                forall|j: int| 0 <= j < idx ==> r@[j] == (#[trigger] self.entries@[j]).0,
            decreases n - idx,
        {
            r.push(self.entries[idx].0);
            idx += 1;
        }
        proof {
            lemma_entries_to_map_len(self.entries@);
            assert forall|i: int, j: int| 0 <= i < j < r@.len() implies r@[i] != r@[j] by {
                assert(r@[i] == (self.entries@[i]).0);
                assert(r@[j] == (self.entries@[j]).0);
            }
            assert forall|k: u64| #[trigger] self@.contains_key(k) <==> r@.contains(k) by {
                lemma_entries_to_map_domain(self.entries@, k);
                if self@.contains_key(k) {
                    let i = choose|i: int|
                        0 <= i < self.entries@.len() && (#[trigger] self.entries@[i]).0 == k;
                    assert(r@[i] == k);
                }
                if r@.contains(k) {
                    let i = choose|i: int| 0 <= i < r@.len() && r@[i] == k;
                    assert((self.entries@[i]).0 == k);
                }
            }
        }
        r
    }

    /// Removes the entry for `k`, if any, and hands its value back.
    pub fn take(&mut self, k: u64) -> (r: Option<V>)
        requires
            old(self).wf(),
        ensures
            final(self).wf(),
            final(self)@ == old(self)@.remove(k),
            (match r {
                Some(v) => old(self)@.contains_key(k) && v == old(self)@[k],
                None => !old(self)@.contains_key(k) && final(self)@ == old(self)@,
            }),
    {
        let n = self.entries.len();
        let mut idx: usize = 0;
        while idx < n
            invariant
                n == self.entries.len(),
                idx <= n,
                self == old(self),
                self.wf(),
                forall|j: int| 0 <= j < idx ==> (#[trigger] self.entries@[j]).0 != k,
            decreases n - idx,
        {
            if self.entries[idx].0 == k {
                proof {
                    lemma_entries_to_map_index(self.entries@, idx as int);
                    lemma_entries_to_map_remove(self.entries@, idx as int);
                    lemma_distinct_keys_remove(self.entries@, idx as int);
                }
                let entry = self.entries.remove(idx);
                return Some(entry.1);
            }
            idx += 1;
        }
        proof {
            lemma_entries_to_map_domain(self.entries@, k);
            assert(old(self)@.remove(k) =~= old(self)@);
        }
        None
    }

    pub fn insert(&mut self, k: u64, v: V)
        requires
            old(self).wf(),
        ensures
            final(self).wf(),
            final(self)@ == old(self)@.insert(k, v),
    {
        let _ = self.take(k);
        proof {
            lemma_entries_to_map_domain(self.entries@, k);
        }
        let ghost mid = self.entries@;
        self.entries.push((k, v));
        proof {
            assert(self.entries@.drop_last() =~= mid);
            assert(self.entries@.last() == (k, v));
            assert(entries_to_map(self.entries@) == entries_to_map(mid).insert(k, v));
            assert forall|a: int, b: int|
                0 <= a < b < self.entries@.len() implies (#[trigger] self.entries@[a]).0
                != (#[trigger] self.entries@[b]).0 by {
                if b < self.entries@.len() - 1 {
                    assert(self.entries@[a] == mid[a]);
                    assert(self.entries@[b] == mid[b]);
                } else {
                    assert(self.entries@[b].0 == k);
                    assert(self.entries@[a] == mid[a]);
                }
            }
            assert(old(self)@.remove(k).insert(k, v) =~= old(self)@.insert(k, v));
        }
    }
}

spec fn distinct_items(s: Seq<u64>) -> bool {
    forall|i: int, j: int| 0 <= i < j < s.len() ==> s[i] != s[j]
}

spec fn items_to_set(s: Seq<u64>) -> Set<u64>
    decreases s.len(),
{
    if s.len() == 0 {
        Set::empty()
    } else {
        items_to_set(s.drop_last()).insert(s.last())
    }
}

proof fn lemma_items_to_set_contains(s: Seq<u64>, k: u64)
    ensures
        items_to_set(s).contains(k) <==> exists|i: int| 0 <= i < s.len() && s[i] == k,
    decreases s.len(),
{
    if s.len() > 0 {
        lemma_items_to_set_contains(s.drop_last(), k);
        if s.last() == k {
            assert(s[s.len() - 1] == k);
        } else if items_to_set(s).contains(k) {
            let i = choose|i: int| 0 <= i < s.drop_last().len() && s.drop_last()[i] == k;
            assert(s[i] == k);
        } else {
            assert forall|i: int| 0 <= i < s.len() implies s[i] != k by {
                if i < s.len() - 1 {
                    assert(s.drop_last()[i] == s[i]);
                }
            }
        }
    }
}

proof fn lemma_items_to_set_len(s: Seq<u64>)
    requires
        distinct_items(s),
    ensures
        items_to_set(s).finite(),
        items_to_set(s).len() == s.len(),
    decreases s.len(),
{
    if s.len() > 0 {
        assert(distinct_items(s.drop_last()));
        lemma_items_to_set_len(s.drop_last());
        lemma_items_to_set_contains(s.drop_last(), s.last());
        assert forall|j: int| 0 <= j < s.drop_last().len() implies s.drop_last()[j] != s.last() by {
            assert(s.drop_last()[j] == s[j]);
            assert(s[s.len() - 1] == s.last());
        }
        assert(!items_to_set(s.drop_last()).contains(s.last()));
        vstd::set::axiom_set_insert_finite(items_to_set(s.drop_last()), s.last());
        vstd::set::axiom_set_insert_len(items_to_set(s.drop_last()), s.last());
    }
}

impl KeySet {
    pub closed spec fn wf(&self) -> bool {
        distinct_items(self.items@)
    }

    pub closed spec fn as_set(&self) -> Set<u64> {
        items_to_set(self.items@)
    }

    pub fn new() -> (s: Self)
        ensures
            s.wf(),
            s@ == Set::<u64>::empty(),
    {
        KeySet { items: Vec::new() }
    }

    pub fn contains(&self, k: u64) -> (r: bool)
        requires
            self.wf(),
        ensures
            r == self@.contains(k),
    {
        let n = self.items.len();
        let mut idx: usize = 0;
        while idx < n
            invariant
                n == self.items.len(),
                idx <= n,
                self.wf(),
                forall|j: int| 0 <= j < idx ==> self.items@[j] != k,
            decreases n - idx,
        {
            if self.items[idx] == k {
                proof {
                    lemma_items_to_set_contains(self.items@, k);
                }
                return true;
            }
            idx += 1;
        }
        proof {
            lemma_items_to_set_contains(self.items@, k);
        }
        false
    }

    pub fn len(&self) -> (n: usize)
        requires
            self.wf(),
        ensures
            n == self@.len(),
            self@.finite(),
    {
        proof {
            lemma_items_to_set_len(self.items@);
        }
        self.items.len()
    }

    pub fn insert(&mut self, k: u64)
        requires
            old(self).wf(),
        ensures
            final(self).wf(),
            final(self)@ == old(self)@.insert(k),
    {
        if self.contains(k) {
            proof {
                assert(old(self)@.insert(k) =~= old(self)@);
            }
        } else {
            proof {
                lemma_items_to_set_contains(self.items@, k);
            }
            let ghost mid = self.items@;
            self.items.push(k);
            proof {
                assert(self.items@.drop_last() =~= mid);
                assert(self.items@.last() == k);
                assert(items_to_set(self.items@) == items_to_set(mid).insert(k));
                assert forall|a: int, b: int|
                    0 <= a < b < self.items@.len() implies self.items@[a] != self.items@[b] by {
                    if b < self.items@.len() - 1 {
                        assert(self.items@[a] == mid[a]);
                        assert(self.items@[b] == mid[b]);
                    } else {
                        assert(self.items@[b] == k);
                        assert(self.items@[a] == mid[a]);
                    }
                }
            }
        }
    }
}

impl<V> View for KeyMap<V> {
    type V = Map<u64, V>;

    open spec fn view(&self) -> Map<u64, V> {
        self.as_map()
    }
}

impl View for KeySet {
    type V = Set<u64>;

    open spec fn view(&self) -> Set<u64> {
        self.as_set()
    }
}

} // verus!
