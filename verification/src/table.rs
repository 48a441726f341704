use vstd::prelude::*;

verus! {

/// A key that can be compared for equality of its view.
pub trait TableKey: View + Sized {
    fn same_key(&self, other: &Self) -> (r: bool)
        ensures
            r == (self@ == other@),
    ;
}

impl TableKey for u32 {
    fn same_key(&self, other: &Self) -> (r: bool) {
        *self == *other
    }
}

/// The map that a list of entries denotes: a later entry for a key hides
/// every earlier one.
pub open spec fn entries_map<K: View, V: View>(s: Seq<(K, V)>) -> Map<K::V, V::V>
    decreases s.len(),
{
    if s.len() == 0 {
        Map::empty()
    } else {
        entries_map(s.drop_last()).insert(s.last().0@, s.last().1@)
    }
}

/// A key/value store kept as a list of entries; its view is the map that
/// the entries denote.
pub struct Table<K, V> {
    pub entries: Vec<(K, V)>,
}

impl<K: View, V: View> View for Table<K, V> {
    type V = Map<K::V, V::V>;

    open spec fn view(&self) -> Map<K::V, V::V> {
        entries_map(self.entries@)
    }
}

/// Entries after position `i` that do not hold `k` do not change what the
/// map says of `k`.
proof fn lemma_lookup_prefix<K: View, V: View>(s: Seq<(K, V)>, i: int, k: K::V)
    requires
        0 <= i <= s.len(),
        forall|j: int| i <= j < s.len() ==> (#[trigger] s[j]).0@ != k,
    ensures
        entries_map(s).contains_key(k) == entries_map(s.take(i)).contains_key(k),
        entries_map(s).contains_key(k) ==> entries_map(s)[k] == entries_map(s.take(i))[k],
    decreases s.len(),
{
    if s.len() == i {
        assert(s.take(i) =~= s);
    } else {
        assert(s.drop_last().take(i) =~= s.take(i));
        assert(s[s.len() - 1].0@ != k);
        lemma_lookup_prefix(s.drop_last(), i, k);
    }
}

/// A key that no entry holds is absent from the map.
proof fn lemma_absent<K: View, V: View>(s: Seq<(K, V)>, k: K::V)
    requires
        forall|j: int| 0 <= j < s.len() ==> (#[trigger] s[j]).0@ != k,
    ensures
        !entries_map(s).contains_key(k),
    decreases s.len(),
{
    if s.len() > 0 {
        assert(s[s.len() - 1].0@ != k);
        lemma_absent(s.drop_last(), k);
    }
}

/// Dropping an entry for `k` changes the map only at `k`.
proof fn lemma_remove_entry<K: View, V: View>(s: Seq<(K, V)>, j: int, k: K::V)
    requires
        0 <= j < s.len(),
        s[j].0@ == k,
    ensures
        entries_map(s.remove(j)).remove(k) =~= entries_map(s).remove(k),
    decreases s.len(),
{
    if j == s.len() - 1 {
        assert(s.remove(j) =~= s.drop_last());
    } else {
        let r = s.remove(j);
        assert(r.len() == s.len() - 1);
        assert(r.drop_last() =~= s.drop_last().remove(j));
        assert(r.last() == s.last());
        lemma_remove_entry(s.drop_last(), j, k);
        let lk = s.last().0@;
        let lv = s.last().1@;
        assert(entries_map(r) == entries_map(s.drop_last().remove(j)).insert(lk, lv));
        assert(entries_map(s) == entries_map(s.drop_last()).insert(lk, lv));
        assert(entries_map(r).remove(k) =~= entries_map(s.drop_last().remove(j)).remove(k).insert(lk, lv).remove(k));
        assert(entries_map(s).remove(k) =~= entries_map(s.drop_last()).remove(k).insert(lk, lv).remove(k));
    }
}

impl<K: TableKey, V: View> Table<K, V> {
    /// An empty table.
    pub fn new() -> (t: Self)
        ensures
            t@ == Map::<K::V, V::V>::empty(),
    {
        Table { entries: Vec::new() }
    }

    /// The value stored for `k`, if any.
    pub fn get(&self, k: &K) -> (r: Option<&V>)
        ensures
            match r {
                Some(v) => self@.contains_key(k@) && v@ == self@[k@],
                None => !self@.contains_key(k@),
            },
    {
        let mut i = self.entries.len();
        while i > 0
            invariant
                i <= self.entries.len(),
                forall|j: int| i <= j < self.entries.len() ==> (#[trigger] self.entries@[j]).0@ != k@,
            decreases i,
        {
            if self.entries[i - 1].0.same_key(k) {
                proof {
                    let s = self.entries@;
                    lemma_lookup_prefix(s, i as int, k@);
                    assert(s.take(i as int).drop_last() =~= s.take(i - 1));
                }
                return Some(&self.entries[i - 1].1);
            }
            i = i - 1;
        }
        proof {
            lemma_absent(self.entries@, k@);
        }
        None
    }

    /// Whether a value is stored for `k`.
    pub fn contains_key(&self, k: &K) -> (r: bool)
        ensures
            r == self@.contains_key(k@),
    {
        self.get(k).is_some()
    }

    /// Removes the entry for `k`, if any.
    pub fn remove(&mut self, k: &K)
        ensures
            final(self)@ == old(self)@.remove(k@),
    {
        let ghost old_map = self@;
        let mut i = self.entries.len();
        while i > 0
            invariant
                i <= self.entries.len(),
                entries_map(self.entries@).remove(k@) == old_map.remove(k@),
                forall|j: int| i <= j < self.entries.len() ==> (#[trigger] self.entries@[j]).0@ != k@,
            decreases i,
        {
            if self.entries[i - 1].0.same_key(k) {
                proof {
                    lemma_remove_entry(self.entries@, i - 1, k@);
                }
                let ghost before = self.entries@;
                self.entries.remove(i - 1);
                assert forall|j: int| i - 1 <= j < self.entries.len() implies (
                #[trigger] self.entries@[j]).0@ != k@ by {
                    assert(self.entries@[j] == before[j + 1]);
                }
            }
            i = i - 1;
        }
        proof {
            lemma_absent(self.entries@, k@);
            assert(entries_map(self.entries@).remove(k@) =~= entries_map(self.entries@));
        }
    }

    /// Stores `v` for `k`, replacing any earlier value.
    pub fn insert(&mut self, k: K, v: V)
        ensures
            final(self)@ == old(self)@.insert(k@, v@),
    {
        self.remove(&k);
        let ghost before = self.entries@;
        self.entries.push((k, v));
        proof {
            assert(self.entries@.drop_last() =~= before);
        }
        assert(self@ =~= old(self)@.insert(k@, v@));
    }
}

/// A copy of a list of plain values.
pub(crate) fn copy_vec<T: Copy>(list: &Vec<T>) -> (r: Vec<T>)
    ensures
        r@ == list@,
{
    let mut r: Vec<T> = Vec::new();
    let mut i: usize = 0;
    while i < list.len()
        invariant
            i <= list.len(),
            r@ == list@.take(i as int),
        decreases list.len() - i,
    {
        r.push(list[i]);
        assert(list@.take(i + 1) =~= list@.take(i as int).push(list@[i as int]));
        i = i + 1;
    }
    assert(list@.take(i as int) =~= list@);
    r
}

} // verus!
