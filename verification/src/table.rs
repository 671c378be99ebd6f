//! A map from 32-bit keys to stored values, seen through the views of those values.
use std::collections::BTreeMap;
use vstd::prelude::*;
use vstd::std_specs::btree::spec_keys_iter;
use vstd::std_specs::iter::IteratorSpec;

verus! {

/// The value stored under `k`, or the empty sequence where nothing is.
pub open spec fn seq_at<T>(m: Map<u32, Seq<T>>, k: u32) -> Seq<T> {
    if m.contains_key(k) {
        m[k]
    } else {
        Seq::empty()
    }
}

/// What a list contains after one more element.
pub proof fn lemma_push_contains<T>(list: Seq<T>, last: T, x: T)
    ensures
        list.push(last).contains(x) <==> list.contains(x) || x == last,
{
    let more = list.push(last);
    assert(more[list.len() as int] == last);
    if list.contains(x) {
        let k = choose|k: int| 0 <= k < list.len() && list[k] == x;
        assert(more[k] == x);
    }
    if more.contains(x) {
        let k = choose|k: int| 0 <= k < more.len() && more[k] == x;
        if k < list.len() {
            assert(list[k] == x);
        }
    }
}

/// What a list contains besides its last element.
pub proof fn lemma_last_contains<T>(list: Seq<T>, x: T)
    requires
        list.len() > 0,
    ensures
        list.contains(x) <==> list.drop_last().contains(x) || x == list.last(),
{
    assert(list =~= list.drop_last().push(list.last()));
    lemma_push_contains(list.drop_last(), list.last(), x);
}

/// The map that a list of entries stands for: each key with the view of its value. Of several
/// entries with one key, the last counts.
pub open spec fn map_of<V: View>(entries: Seq<(u32, V)>) -> Map<u32, V::V>
    decreases entries.len(),
{
    if entries.len() == 0 {
        Map::empty()
    } else {
        map_of(entries.drop_last()).insert(entries.last().0, entries.last().1@)
    }
}

/// A stored map. Its view maps each key to the view of the value under it.
pub struct Table<V> {
    map: BTreeMap<u32, V>,
}

impl<V: View> View for Table<V> {
    type V = Map<u32, V::V>;

    closed spec fn view(&self) -> Map<u32, V::V> {
        self.map@.map_values(|v: V| v@)
    }
}

impl<V: View> Table<V> {
    /// An empty table.
    pub fn new() -> (table: Self)
        ensures
            table@ == Map::<u32, V::V>::empty(),
    {
        let table: Table<V> = Table { map: BTreeMap::new() };
        assert(table@ =~= Map::<u32, V::V>::empty());
        table
    }

    /// Whether something is stored under `k`.
    pub fn contains_key(&self, k: u32) -> (found: bool)
        ensures
            found == self@.contains_key(k),
    {
        self.map.contains_key(&k)
    }

    /// What is stored under `k`.
    pub fn get(&self, k: u32) -> (value: Option<&V>)
        ensures
            match value {
                Some(v) => self@.contains_key(k) && v@ == self@[k],
                None => !self@.contains_key(k),
            },
    {
        self.map.get(&k)
    }

    /// Stores `v` under `k`, in place of what was there.
    pub fn insert(&mut self, k: u32, v: V)
        ensures
            final(self)@ == old(self)@.insert(k, v@),
    {
        self.map.insert(k, v);
        assert(self@ =~= old(self)@.insert(k, v@));
    }

    /// Removes what is stored under `k`, and hands it out.
    pub fn take(&mut self, k: u32) -> (value: Option<V>)
        ensures
            final(self)@ == old(self)@.remove(k),
            match value {
                Some(v) => old(self)@.contains_key(k) && v@ == old(self)@[k],
                None => !old(self)@.contains_key(k),
            },
    {
        let value = self.map.remove(&k);
        assert(self@ =~= old(self)@.remove(k));
        value
    }

    /// The table that holds the entries `entries`.
    pub fn from_entries(entries: Vec<(u32, V)>) -> (table: Self)
        ensures
            table@ == map_of(entries@),
    {
        let ghost all = entries@;
        let mut table: Table<V> = Table::new();
        for entry in it: entries
            invariant
                all == it.seq(),
                table@ == map_of(all.take(it.index() as int)),
        {
            let ghost n = it.index() as int;
            assert(all.take(n + 1).drop_last() =~= all.take(n));
            table.insert(entry.0, entry.1);
        }
        assert(all.take(all.len() as int) =~= all);
        table
    }

    /// All that is stored, one entry for each key.
    pub fn into_entries(self) -> (entries: Vec<(u32, V)>)
        ensures
            map_of(entries@) == self@,
            forall|i: int, j: int|
                0 <= i < j < entries@.len() ==> (#[trigger] entries@[i]).0 != (
                #[trigger] entries@[j]).0,
    {
        let ghost stored = self@;
        let keys: Vec<u32> = self.keys();
        let mut table: Table<V> = self;
        let mut entries: Vec<(u32, V)> = Vec::new();
        let mut i: usize = 0;
        while i < keys.len()
            invariant
                i <= keys.len(),
                keys@.no_duplicates(),
                forall|k: u32| keys@.contains(k) <==> stored.contains_key(k),
                entries@.len() == i,
                forall|j: int| 0 <= j < i ==> (#[trigger] entries@[j]).0 == keys@[j],
                forall|k: u32|
                    keys@.take(i as int).contains(k) <==> #[trigger] map_of(entries@).contains_key(
                        k,
                    ),
                forall|k: u32| #[trigger]
                    map_of(entries@).contains_key(k) ==> map_of(entries@)[k] == stored[k],
                forall|k: u32|
                    !keys@.take(i as int).contains(k) && stored.contains_key(k)
                        ==> #[trigger] table@.contains_key(k) && table@[k] == stored[k],
            decreases keys.len() - i,
        {
            let k: u32 = keys[i];
            let ghost before = keys@.take(i as int);
            proof {
                assert(keys@.take(i + 1) =~= before.push(k));
                assert forall|x: u32| #[trigger] keys@.take(i + 1).contains(x) <==> before.contains(
                    x,
                ) || x == k by {
                    lemma_push_contains(before, k, x);
                }
                assert(!before.contains(k));
                assert(keys@.contains(k));
                assert(table@.contains_key(k));
            }
            match table.take(k) {
                Some(v) => {
                    let ghost listed = entries@;
                    entries.push((k, v));
                    assert(entries@.drop_last() =~= listed);
                    assert(map_of(entries@) == map_of(listed).insert(k, stored[k]));
                    assert(forall|x: u32| #[trigger]
                        map_of(entries@).contains_key(x) <==> map_of(listed).contains_key(x) || x
                            == k);
                },
                None => {
                    assert(false);
                },
            }
            i = i + 1;
        }
        assert(keys@.take(i as int) =~= keys@);
        assert(map_of(entries@) =~= stored);
        entries
    }

    /// The keys under which something is stored.
    pub fn keys(&self) -> (keys: Vec<u32>)
        ensures
            keys@.no_duplicates(),
            forall|k: u32| keys@.contains(k) <==> self@.contains_key(k),
    {
        let mut keys: Vec<u32> = Vec::new();
        let ghost stored: Seq<u32> = spec_keys_iter(&self.map).remaining().unref();
        for k in it: self.map.keys()
            invariant
                stored == it.seq().unref(),
                keys@ =~= stored.take(it.index() as int),
        {
            keys.push(*k);
        }
        assert(keys@ =~= stored);
        assert(keys@.to_set() == self.map@.dom());
        assert forall|k: u32| keys@.contains(k) <==> self@.contains_key(k) by {
            assert(keys@.contains(k) <==> keys@.to_set().contains(k));
        }
        keys
    }
}

impl<T> Table<Vec<T>> {
    /// Removes the list stored under `k`, and hands it out; an empty one where nothing was.
    pub fn take_list(&mut self, k: u32) -> (list: Vec<T>)
        ensures
            final(self)@ == old(self)@.remove(k),
            list@ == seq_at(old(self)@, k),
    {
        match self.take(k) {
            Some(list) => list,
            None => Vec::new(),
        }
    }

    /// Adds `x` at the end of the list stored under `k`.
    pub fn append(&mut self, k: u32, x: T)
        ensures
            final(self)@ == old(self)@.insert(k, seq_at(old(self)@, k).push(x)),
    {
        let mut list = self.take_list(k);
        list.push(x);
        self.insert(k, list);
        assert(self@ =~= old(self)@.insert(k, seq_at(old(self)@, k).push(x)));
    }
}

} // verus!
