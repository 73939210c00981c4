//! Small keyed collections with last-write-wins insertion.
use vstd::prelude::*;

verus! {

/// A key that can be compared in executable code.
pub trait MapKey: Copy + Sized {
    fn same(&self, other: &Self) -> (r: bool)
        ensures
            r == (*self == *other),
    ;
}

/// The map that a list of entries denotes: a later entry for a key replaces
/// an earlier one.
pub open spec fn entries_map<K, V>(s: Seq<(K, V)>) -> Map<K, V>
    decreases s.len(),
{
    if s.len() == 0 {
        Map::empty()
    } else {
        entries_map(s.drop_last()).insert(s.last().0, s.last().1)
    }
}

/// No key occurs twice in the list.
pub open spec fn keys_distinct<K, V>(s: Seq<(K, V)>) -> bool {
    forall|i: int, j: int|
        0 <= i < s.len() && 0 <= j < s.len() && i != j ==> #[trigger] s[i].0 != #[trigger] s[j].0
}

/// How many entries of the list carry key `k`.
pub open spec fn key_count<K, V>(s: Seq<(K, V)>, k: K) -> nat
    decreases s.len(),
{
    if s.len() == 0 {
        0
    } else {
        key_count(s.drop_last(), k) + if s.last().0 == k { 1nat } else { 0nat }
    }
}

pub proof fn lemma_entries_dom<K, V>(s: Seq<(K, V)>, k: K)
    ensures
        entries_map(s).contains_key(k) <==> exists|i: int| 0 <= i < s.len() && #[trigger] s[i].0 == k,
    decreases s.len(),
{
    if s.len() > 0 {
        lemma_entries_dom(s.drop_last(), k);
        if entries_map(s.drop_last()).contains_key(k) {
            let i = choose|i: int| 0 <= i < s.drop_last().len() && #[trigger] s.drop_last()[i].0 == k;
            assert(s[i].0 == k);
        }
        if exists|i: int| 0 <= i < s.len() && #[trigger] s[i].0 == k {
            let i = choose|i: int| 0 <= i < s.len() && #[trigger] s[i].0 == k;
            if i < s.len() - 1 {
                assert(s.drop_last()[i].0 == k);
            }
        }
    }
}

pub proof fn lemma_entries_value<K, V>(s: Seq<(K, V)>, i: int)
    requires
        keys_distinct(s),
        0 <= i < s.len(),
    ensures
        entries_map(s).contains_key(s[i].0),
        entries_map(s)[s[i].0] == s[i].1,
    decreases s.len(),
{
    if i < s.len() - 1 {
        let t = s.drop_last();
        assert(t[i] == s[i]);
        assert(keys_distinct(t)) by {
            assert forall|a: int, b: int|
                0 <= a < t.len() && 0 <= b < t.len() && a != b implies #[trigger] t[a].0 != #[trigger] t[b].0 by {
                assert(t[a] == s[a] && t[b] == s[b]);
            }
        }
        lemma_entries_value(t, i);
        assert(s[i].0 != s[s.len() - 1].0);
    }
}

pub proof fn lemma_entries_update<K, V>(s: Seq<(K, V)>, i: int, v: V)
    requires
        keys_distinct(s),
        0 <= i < s.len(),
    ensures
        entries_map(s.update(i, (s[i].0, v))) == entries_map(s).insert(s[i].0, v),
    decreases s.len(),
{
    let k = s[i].0;
    let u = s.update(i, (k, v));
    assert(u.drop_last().len() == s.drop_last().len());
    if i == s.len() - 1 {
        assert(u.drop_last() =~= s.drop_last());
        assert(entries_map(u) =~= entries_map(s).insert(k, v));
    } else {
        let t = s.drop_last();
        assert(u.drop_last() =~= t.update(i, (k, v)));
        assert(keys_distinct(t)) by {
            assert forall|a: int, b: int|
                0 <= a < t.len() && 0 <= b < t.len() && a != b implies #[trigger] t[a].0 != #[trigger] t[b].0 by {
                assert(t[a] == s[a] && t[b] == s[b]);
            }
        }
        assert(t[i] == s[i]);
        lemma_entries_update(t, i, v);
        assert(s.last().0 != k);
        assert(u.last() == s.last());
        assert(entries_map(u) =~= entries_map(s).insert(k, v));
    }
}

pub proof fn lemma_key_count_distinct<K, V>(s: Seq<(K, V)>, k: K)
    requires
        keys_distinct(s),
    ensures
        key_count(s, k) == if entries_map(s).contains_key(k) { 1nat } else { 0nat },
    decreases s.len(),
{
    if s.len() > 0 {
        let t = s.drop_last();
        assert(keys_distinct(t)) by {
            assert forall|a: int, b: int|
                0 <= a < t.len() && 0 <= b < t.len() && a != b implies #[trigger] t[a].0 != #[trigger] t[b].0 by {
                assert(t[a] == s[a] && t[b] == s[b]);
            }
        }
        lemma_key_count_distinct(t, k);
        if s.last().0 == k {
            lemma_entries_dom(t, k);
            if entries_map(t).contains_key(k) {
                let i = choose|i: int| 0 <= i < t.len() && #[trigger] t[i].0 == k;
                assert(s[i].0 == s[s.len() - 1].0);
            }
        }
    }
}

/// A map kept as a list of entries in insertion order, each key once.
pub struct KeyedMap<K, V> {
    entries: Vec<(K, V)>,
}

impl<K: MapKey, V> View for KeyedMap<K, V> {
    type V = Map<K, V>;

    open spec fn view(&self) -> Map<K, V> {
        entries_map(self.entry_seq())
    }
}

impl<K: MapKey, V> KeyedMap<K, V> {
    /// The entries, in the order in which their keys first arrived.
    pub closed spec fn entry_seq(&self) -> Seq<(K, V)> {
        self.entries@
    }

    pub open spec fn wf(&self) -> bool {
        keys_distinct(self.entry_seq())
    }

    /// How many stored entries carry key `k`.
    pub open spec fn occurrences(&self, k: K) -> nat {
        key_count(self.entry_seq(), k)
    }

    pub fn new() -> (r: Self)
        ensures
            r.wf(),
            r@ == Map::<K, V>::empty(),
    {
        KeyedMap { entries: Vec::new() }
    }

    pub fn len(&self) -> (r: usize)
        requires
            self.wf(),
        ensures
            r == self@.dom().len(),
            r == self.entry_seq().len(),
    {
        proof {
            self.lemma_dom_len();
        }
        self.entries.len()
    }

    proof fn lemma_dom_len(&self)
        requires
            self.wf(),
        ensures
            self@.dom().len() == self.entry_seq().len(),
            self@.dom().finite(),
    {
        let s = self.entries@;
        let keys = s.map_values(|e: (K, V)| e.0);
        assert(keys.no_duplicates()) by {
            assert forall|a: int, b: int| 0 <= a < keys.len() && 0 <= b < keys.len() && a != b
                implies keys[a] != keys[b] by {
                assert(s[a].0 != s[b].0);
            }
        }
        assert(self@.dom() =~= keys.to_set()) by {
            assert forall|k: K| self@.dom().contains(k) <==> keys.to_set().contains(k) by {
                lemma_entries_dom(s, k);
                if keys.contains(k) {
                    let i = choose|i: int| 0 <= i < keys.len() && keys[i] == k;
                    assert(s[i].0 == k);
                }
                if self@.dom().contains(k) {
                    let i = choose|i: int| 0 <= i < s.len() && #[trigger] s[i].0 == k;
                    assert(keys[i] == k);
                }
            }
        }
        keys.unique_seq_to_set();
    }

    /// The key of the `i`-th stored entry.
    pub fn key_at(&self, i: usize) -> (r: K)
        requires
            self.wf(),
            i < self.entry_seq().len(),
        ensures
            r == self.entry_seq()[i as int].0,
            self@.contains_key(r),
    {
        proof {
            lemma_entries_value(self.entries@, i as int);
        }
        self.entries[i].0
    }

    /// The position of the entry with key `k`, if there is one.
    fn position(&self, k: &K) -> (r: Option<usize>)
        requires
            self.wf(),
        ensures
            r matches Some(i) ==> i < self.entry_seq().len() && self.entry_seq()[i as int].0 == *k,
            r is None ==> !self@.contains_key(*k),
    {
        let mut i: usize = 0;
        while i < self.entries.len()
            invariant
                i <= self.entries@.len(),
                forall|j: int| 0 <= j < i ==> #[trigger] self.entries@[j].0 != *k,
            decreases self.entries@.len() - i,
        {
            if self.entries[i].0.same(k) {
                return Some(i);
            }
            i = i + 1;
        }
        proof {
            lemma_entries_dom(self.entries@, *k);
        }
        None
    }

    pub fn contains_key(&self, k: &K) -> (r: bool)
        requires
            self.wf(),
        ensures
            r == self@.contains_key(*k),
    {
        match self.position(k) {
            Some(i) => {
                proof {
                    lemma_entries_value(self.entries@, i as int);
                }
                true
            },
            None => false,
        }
    }

    pub fn get(&self, k: &K) -> (r: Option<&V>)
        requires
            self.wf(),
        ensures
            r matches Some(v) ==> self@.contains_key(*k) && self@[*k] == *v,
            r is None ==> !self@.contains_key(*k),
    {
        match self.position(k) {
            Some(i) => {
                proof {
                    lemma_entries_value(self.entries@, i as int);
                }
                Some(&self.entries[i].1)
            },
            None => None,
        }
    }

    /// Stores `v` under `k`, replacing what was stored there.
    pub fn insert(&mut self, k: K, v: V)
        requires
            old(self).wf(),
        ensures
            final(self).wf(),
            final(self)@ == old(self)@.insert(k, v),
    {
        match self.position(&k) {
            Some(i) => {
                proof {
                    lemma_entries_update(self.entries@, i as int, v);
                }
                self.entries.set(i, (k, v));
            },
            None => {
                proof {
                    lemma_entries_dom(self.entries@, k);
                }
                self.entries.push((k, v));
                assert(self.entries@.drop_last() =~= old(self).entries@);
            },
        }
    }

    /// Adds every entry of `other`; on a shared key the entry of `other` wins.
    pub fn extend(&mut self, other: KeyedMap<K, V>)
        requires
            old(self).wf(),
            other.wf(),
        ensures
            final(self).wf(),
            final(self)@ == old(self)@.union_prefer_right(other@),
    {
        let mut rest = other.entries;
        let ghost target = old(self)@.union_prefer_right(other@);
        assert(self@.union_prefer_right(entries_map(rest@)) =~= target);
        while rest.len() > 0
            invariant
                self.wf(),
                keys_distinct(rest@),
                self@.union_prefer_right(entries_map(rest@)) == target,
            decreases rest@.len(),
        {
            let ghost before = rest@;
            let (k, v) = rest.pop().unwrap();
            proof {
                assert(rest@ =~= before.drop_last());
                assert(keys_distinct(rest@)) by {
                    assert forall|a: int, b: int|
                        0 <= a < rest@.len() && 0 <= b < rest@.len() && a != b
                        implies #[trigger] rest@[a].0 != #[trigger] rest@[b].0 by {
                        assert(rest@[a] == before[a] && rest@[b] == before[b]);
                    }
                }
                lemma_entries_dom(rest@, k);
                if entries_map(rest@).contains_key(k) {
                    let i = choose|i: int| 0 <= i < rest@.len() && #[trigger] rest@[i].0 == k;
                    assert(before[i].0 == before[before.len() - 1].0);
                }
            }
            let ghost mid = self@;
            self.insert(k, v);
            assert(self@.union_prefer_right(entries_map(rest@)) =~= mid.union_prefer_right(
                entries_map(before),
            ));
        }
        assert(self@.union_prefer_right(entries_map(rest@)) =~= self@);
    }
}

/// A set kept as a list, each member once.
pub struct KeySet<K> {
    members: KeyedMap<K, ()>,
}

impl<K: MapKey> View for KeySet<K> {
    type V = Set<K>;

    open spec fn view(&self) -> Set<K> {
        self.member_map().dom()
    }
}

impl<K: MapKey> KeySet<K> {
    pub closed spec fn member_map(&self) -> Map<K, ()> {
        self.members@
    }

    pub closed spec fn wf(&self) -> bool {
        self.members.wf()
    }

    /// The members, in the order in which they first arrived.
    pub closed spec fn member_seq(&self) -> Seq<K> {
        self.members.entry_seq().map_values(|e: (K, ())| e.0)
    }

    pub fn new() -> (r: Self)
        ensures
            r.wf(),
            r@ == Set::<K>::empty(),
    {
        KeySet { members: KeyedMap::new() }
    }

    /// The set holds exactly the listed members.
    pub proof fn lemma_members(&self)
        requires
            self.wf(),
        ensures
            forall|k: K| self@.contains(k) <==> #[trigger] self.member_seq().contains(k),
    {
        let s = self.members.entry_seq();
        let m = self.member_seq();
        assert forall|k: K| self@.contains(k) <==> #[trigger] m.contains(k) by {
            lemma_entries_dom(s, k);
            if m.contains(k) {
                let i = choose|i: int| 0 <= i < m.len() && m[i] == k;
                assert(s[i].0 == k);
            }
            if self@.contains(k) {
                let i = choose|i: int| 0 <= i < s.len() && #[trigger] s[i].0 == k;
                assert(m[i] == k);
            }
        }
    }

    pub fn len(&self) -> (r: usize)
        requires
            self.wf(),
        ensures
            r == self@.len(),
            r == self.member_seq().len(),
    {
        self.members.len()
    }

    pub fn member_at(&self, i: usize) -> (r: K)
        requires
            self.wf(),
            i < self.member_seq().len(),
        ensures
            r == self.member_seq()[i as int],
            self@.contains(r),
    {
        self.members.key_at(i)
    }

    pub fn contains(&self, k: &K) -> (r: bool)
        requires
            self.wf(),
        ensures
            r == self@.contains(*k),
    {
        self.members.contains_key(k)
    }

    pub fn insert(&mut self, k: K)
        requires
            old(self).wf(),
        ensures
            final(self).wf(),
            final(self)@ == old(self)@.insert(k),
    {
        self.members.insert(k, ());
        assert(self@ =~= old(self)@.insert(k));
    }

    /// Adds every member of `other`.
    pub fn extend(&mut self, other: KeySet<K>)
        requires
            old(self).wf(),
            other.wf(),
        ensures
            final(self).wf(),
            final(self)@ == old(self)@.union(other@),
    {
        self.members.extend(other.members);
        assert(self@ =~= old(self)@.union(other@));
    }
}

} // verus!
