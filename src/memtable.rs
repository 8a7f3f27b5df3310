use vstd::prelude::*;

use crate::command::{pairs_view, KvError};
use crate::storage::{lists_table, lookup, Storage, StoreModel};
use crate::value::{Kvpair, VValue, Value};

verus! {

/// One stored entry of the in-memory backend.
struct Entry {
    table: String,
    key: String,
    value: Value,
}

spec fn entry_key(e: Entry) -> (Seq<char>, Seq<char>) {
    (e.table@, e.key@)
}

/// The in-memory backend: entries held directly, without serialization,
/// each (table, key) at most once. Tables come into being with their first
/// entry.
pub struct MemTable {
    entries: Vec<Entry>,
    contents: Ghost<StoreModel>,
}

impl MemTable {
    /// Each (table, key) is held once, and `contents` is what the entries hold.
    pub closed spec fn wf(&self) -> bool {
        let es = self.entries@;
        let m = self.contents@;
        &&& forall|i: int, j: int|
            0 <= i < j < es.len() ==> entry_key(#[trigger] es[i]) != entry_key(#[trigger] es[j])
        &&& forall|i: int|
            0 <= i < es.len() ==> m.contains_key(entry_key(#[trigger] es[i])) && m[entry_key(es[i])]
                == es[i].value@
        &&& forall|tk: (Seq<char>, Seq<char>)|
            m.contains_key(tk) ==> exists|i: int| 0 <= i < es.len() && entry_key(#[trigger] es[i]) == tk
    }

    /// An empty store.
    pub fn new() -> (r: MemTable)
        ensures
            r.inv(),
            r.exact(),
            r.model() == Map::<(Seq<char>, Seq<char>), crate::value::VValue>::empty(),
    {
        MemTable { entries: Vec::new(), contents: Ghost(Map::empty()) }
    }

    /// The position of the entry (table, key), if there is one.
    fn find(&self, table: &String, key: &String) -> (r: Option<usize>)
        ensures
            r is Some ==> r->Some_0 < self.entries@.len() && entry_key(
                self.entries@[r->Some_0 as int],
            ) == (table@, key@),
            r is None ==> forall|i: int|
                0 <= i < self.entries@.len() ==> entry_key(#[trigger] self.entries@[i]) != (
                table@,
                key@,
            ),
    {
        let mut i: usize = 0;
        while i < self.entries.len()
            invariant
                i <= self.entries@.len(),
                forall|j: int|
                    0 <= j < i ==> entry_key(#[trigger] self.entries@[j]) != (table@, key@),
            decreases self.entries@.len() - i,
        {
            if self.entries[i].table == *table && self.entries[i].key == *key {
                return Some(i);
            }
            i = i + 1;
        }
        None
    }
}

impl MemTable {
    /// The number of entries held, over all tables.
    pub closed spec fn entry_count(&self) -> nat {
        self.entries@.len()
    }

    /// The table, key and value of the entry at position `i`.
    pub closed spec fn entry_at(&self, i: int) -> (Seq<char>, Seq<char>, VValue) {
        (self.entries@[i].table@, self.entries@[i].key@, self.entries@[i].value@)
    }

    /// A lazy, single-pass scan of `table`: each call of
    /// [`MemTableIter::next`] finds the next entry.
    pub fn get_iter(&self, table: &str) -> (r: MemTableIter)
        ensures
            r.table() == table@,
            r.position() == 0,
    {
        MemTableIter { table: table.to_string(), pos: 0 }
    }
}

/// A scan over one table of a [`MemTable`], pulling one entry at a time.
pub struct MemTableIter {
    table: String,
    pos: usize,
}

impl MemTableIter {
    pub closed spec fn table(&self) -> Seq<char> {
        self.table@
    }

    /// How far into the store's entries the scan has gone.
    pub closed spec fn position(&self) -> nat {
        self.pos as nat
    }

    /// The next entry of the table at or after the scan's position, or
    /// `None` when there is none. Each entry it gives is held by the store.
    pub fn next(&mut self, store: &MemTable) -> (r: Option<Kvpair>)
        requires
            store.inv(),
        ensures
            final(self).table() == old(self).table(),
            r is None ==> final(self).position() >= store.entry_count() && forall|j: int|
                old(self).position() <= j < store.entry_count() ==> (#[trigger] store.entry_at(
                    j,
                )).0 != old(self).table(),
            r is Some ==> exists|j: int|
                old(self).position() <= j < store.entry_count() && final(self).position() == j + 1
                    && #[trigger] store.entry_at(j) == (
                    old(self).table(),
                    r->Some_0.key@,
                    r->Some_0.value@,
                ) && forall|k: int|
                    old(self).position() <= k < j ==> (#[trigger] store.entry_at(k)).0 != old(
                        self,
                    ).table(),
            r is Some ==> lookup(store.model(), old(self).table(), r->Some_0.key@) == Some(
                r->Some_0.value@,
            ),
    {
        let start = self.pos;
        while self.pos < store.entries.len()
            invariant
                store.wf(),
                self.table == old(self).table,
                start == old(self).pos,
                start <= self.pos,
                forall|k: int|
                    start <= k < self.pos ==> (#[trigger] store.entries@[k]).table@ != self.table@,
            decreases store.entries@.len() - self.pos,
        {
            let i = self.pos;
            self.pos = self.pos + 1;
            if store.entries[i].table == self.table {
                let pair = Kvpair {
                    key: store.entries[i].key.clone(),
                    value: store.entries[i].value.duplicate(),
                };
                proof {
                    assert(store.entry_at(i as int) == (self.table@, pair.key@, pair.value@));
                    assert(entry_key(store.entries@[i as int]) == (self.table@, pair.key@));
                    assert forall|k: int| start <= k < i implies (#[trigger] store.entry_at(k)).0
                        != self.table@ by {
                        assert(store.entry_at(k).0 == store.entries@[k].table@);
                    }
                }
                return Some(pair);
            }
        }
        proof {
            assert forall|j: int| start <= j < store.entry_count() implies (#[trigger] store.entry_at(
                j,
            )).0 != self.table@ by {
                assert(store.entry_at(j).0 == store.entries@[j].table@);
            }
        }
        None
    }
}

impl Default for MemTable {
    fn default() -> (r: MemTable)
        ensures
            r.inv(),
            r.exact(),
            r.model() == Map::<(Seq<char>, Seq<char>), crate::value::VValue>::empty(),
    {
        MemTable::new()
    }
}

impl Storage for MemTable {
    closed spec fn model(&self) -> StoreModel {
        self.contents@
    }

    closed spec fn inv(&self) -> bool {
        self.wf()
    }

    open spec fn exact(&self) -> bool {
        true
    }

    fn get(&self, table: &str, key: &str) -> (r: Result<Option<Value>, KvError>) {
        let t = table.to_string();
        let k = key.to_string();
        match self.find(&t, &k) {
            Some(i) => Ok(Some(self.entries[i].value.duplicate())),
            None => Ok(None),
        }
    }

    fn set(&mut self, table: &str, key: String, value: Value) -> (r: Result<Option<Value>, KvError>) {
        let t = table.to_string();
        let ghost tk = (table@, key@);
        let ghost vv = value@;
        match self.find(&t, &key) {
            Some(i) => {
                let prev = self.entries[i].value.duplicate();
                self.entries.set(i, Entry { table: t, key, value });
                self.contents = Ghost(self.contents@.insert(tk, vv));
                proof {
                    assert forall|tk2: (Seq<char>, Seq<char>)|
                        self.contents@.contains_key(tk2) implies exists|j: int|
                        0 <= j < self.entries@.len() && entry_key(#[trigger] self.entries@[j])
                            == tk2 by {
                        if tk2 != tk {
                            let j = choose|j: int|
                                0 <= j < self.entries@.len() && entry_key(
                                    #[trigger] old(self).entries@[j],
                                ) == tk2;
                            assert(entry_key(self.entries@[j]) == tk2);
                        } else {
                            assert(entry_key(self.entries@[i as int]) == tk2);
                        }
                    }
                }
                Ok(Some(prev))
            },
            None => {
                self.entries.push(Entry { table: t, key, value });
                self.contents = Ghost(self.contents@.insert(tk, vv));
                proof {
                    let n = self.entries@.len() - 1;
                    assert forall|tk2: (Seq<char>, Seq<char>)|
                        self.contents@.contains_key(tk2) implies exists|j: int|
                        0 <= j < self.entries@.len() && entry_key(#[trigger] self.entries@[j])
                            == tk2 by {
                        if tk2 != tk {
                            let j = choose|j: int|
                                0 <= j < old(self).entries@.len() && entry_key(
                                    #[trigger] old(self).entries@[j],
                                ) == tk2;
                            assert(entry_key(self.entries@[j]) == tk2);
                        } else {
                            assert(entry_key(self.entries@[n]) == tk2);
                        }
                    }
                }
                Ok(None)
            },
        }
    }

    fn contains(&self, table: &str, key: &str) -> (r: Result<bool, KvError>) {
        let t = table.to_string();
        let k = key.to_string();
        match self.find(&t, &k) {
            Some(_) => Ok(true),
            None => Ok(false),
        }
    }

    fn del(&mut self, table: &str, key: &str) -> (r: Result<Option<Value>, KvError>) {
        let t = table.to_string();
        let k = key.to_string();
        let ghost tk = (table@, key@);
        match self.find(&t, &k) {
            Some(i) => {
                let e = self.entries.remove(i);
                self.contents = Ghost(self.contents@.remove(tk));
                proof {
                    let es = old(self).entries@;
                    assert forall|a: int, b: int|
                        0 <= a < b < self.entries@.len() implies entry_key(
                        #[trigger] self.entries@[a],
                    ) != entry_key(#[trigger] self.entries@[b]) by {
                        let a0 = if a < i { a } else { a + 1 };
                        let b0 = if b < i { b } else { b + 1 };
                        assert(self.entries@[a] == es[a0]);
                        assert(self.entries@[b] == es[b0]);
                    }
                    assert forall|a: int| 0 <= a < self.entries@.len() implies self.contents@.contains_key(
                        entry_key(#[trigger] self.entries@[a]),
                    ) && self.contents@[entry_key(self.entries@[a])]
                        == self.entries@[a].value@ by {
                        let a0 = if a < i { a } else { a + 1 };
                        assert(self.entries@[a] == es[a0]);
                        assert(entry_key(es[a0]) != entry_key(es[i as int]));
                    }
                    assert forall|tk2: (Seq<char>, Seq<char>)|
                        self.contents@.contains_key(tk2) implies exists|j: int|
                        0 <= j < self.entries@.len() && entry_key(#[trigger] self.entries@[j])
                            == tk2 by {
                        let j0 = choose|j: int|
                            0 <= j < es.len() && entry_key(#[trigger] es[j]) == tk2;
                        assert(j0 != i);
                        let j = if j0 < i { j0 } else { j0 - 1 };
                        assert(self.entries@[j] == es[j0]);
                    }
                }
                Ok(Some(e.value))
            },
            None => {
                proof {
                    assert(!self.contents@.contains_key(tk));
                    assert(self.contents@.remove(tk) =~= self.contents@);
                }
                Ok(None)
            },
        }
    }

    fn get_all(&self, table: &str) -> (r: Result<Vec<Kvpair>, KvError>) {
        let t = table.to_string();
        let mut out: Vec<Kvpair> = Vec::new();
        let mut i: usize = 0;
        while i < self.entries.len()
            invariant
                self.wf(),
                t@ == table@,
                i <= self.entries@.len(),
                forall|p: int, q: int|
                    0 <= p < q < out@.len() ==> (#[trigger] out@[p]).key@ != (
                    #[trigger] out@[q]).key@,
                forall|p: int|
                    0 <= p < out@.len() ==> lookup(self.contents@, table@, (#[trigger] out@[p]).key@)
                        == Some(out@[p].value@),
                forall|p: int|
                    0 <= p < out@.len() ==> exists|j: int|
                        0 <= j < i && entry_key(#[trigger] self.entries@[j]) == (
                        table@,
                        (#[trigger] out@[p]).key@,
                    ),
                forall|j: int|
                    0 <= j < i && (#[trigger] self.entries@[j]).table@ == table@ ==> exists|p: int|
                        0 <= p < out@.len() && (#[trigger] out@[p]).key@ == self.entries@[j].key@,
            decreases self.entries@.len() - i,
        {
            if self.entries[i].table == t {
                let pair = Kvpair {
                    key: self.entries[i].key.clone(),
                    value: self.entries[i].value.duplicate(),
                };
                let ghost old_out = out@;
                out.push(pair);
                proof {
                    let n = old_out.len() as int;
                    assert(out@[n].key@ == self.entries@[i as int].key@);
                    assert forall|p: int| 0 <= p < n implies out@[p].key@ != out@[n].key@ by {
                        assert(out@[p] == old_out[p]);
                        let j = choose|j: int|
                            0 <= j < i && entry_key(#[trigger] self.entries@[j]) == (
                            table@,
                            old_out[p].key@,
                        );
                        assert(entry_key(self.entries@[j]) != entry_key(self.entries@[i as int]));
                    }
                    assert forall|p: int, q: int|
                        0 <= p < q < out@.len() implies (#[trigger] out@[p]).key@ != (
                        #[trigger] out@[q]).key@ by {
                        if q < n {
                            assert(out@[p] == old_out[p] && out@[q] == old_out[q]);
                        }
                    }
                    assert forall|p: int| 0 <= p < out@.len() implies exists|j: int|
                        0 <= j < i + 1 && entry_key(#[trigger] self.entries@[j]) == (
                        table@,
                        (#[trigger] out@[p]).key@,
                    ) by {
                        if p < n {
                            assert(out@[p] == old_out[p]);
                        } else {
                            assert(entry_key(self.entries@[i as int]) == (table@, out@[p].key@));
                        }
                    }
                    assert forall|j: int|
                        0 <= j < i + 1 && (#[trigger] self.entries@[j]).table@ == table@ implies exists|p: int|
                        0 <= p < out@.len() && (#[trigger] out@[p]).key@ == self.entries@[j].key@ by {
                        if j < i {
                            let p = choose|p: int|
                                0 <= p < old_out.len() && (#[trigger] old_out[p]).key@
                                    == self.entries@[j].key@;
                            assert(out@[p] == old_out[p]);
                        } else {
                            assert(out@[n].key@ == self.entries@[j].key@);
                        }
                    }
                }
            }
            i = i + 1;
        }
        proof {
            assert forall|k: Seq<char>| self.contents@.contains_key((table@, k)) implies exists|p: int|
                0 <= p < pairs_view(out@).len() && #[trigger] pairs_view(out@)[p].0 == k by {
                let j = choose|j: int|
                    0 <= j < self.entries@.len() && entry_key(#[trigger] self.entries@[j]) == (
                    table@,
                    k,
                );
                assert(self.entries@[j].table@ == table@);
                let p = choose|p: int|
                    0 <= p < out@.len() && (#[trigger] out@[p]).key@ == self.entries@[j].key@;
                assert(pairs_view(out@)[p].0 == k);
            }
            assert forall|p: int| 0 <= p < pairs_view(out@).len() implies lookup(
                self.contents@,
                table@,
                #[trigger] pairs_view(out@)[p].0,
            ) == Some(pairs_view(out@)[p].1) by {
                assert(pairs_view(out@)[p] == out@[p]@);
            }
            assert forall|p: int, q: int|
                0 <= p < q < pairs_view(out@).len() implies pairs_view(out@)[p].0 != pairs_view(out@)[q].0 by {
                assert(pairs_view(out@)[p] == out@[p]@);
                assert(pairs_view(out@)[q] == out@[q]@);
            }
        }
        Ok(out)
    }
}

} // verus!
