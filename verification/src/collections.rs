//! Identifier-keyed tables.
//!
//! [`IdTable`] is the one associative container of the kernel: ports key it by
//! process id, schedulers by task id, the futex runtime by queue id. Values sit
//! in a dense vector; a `hashbrown` map finds the slot of an identifier.

use vstd::prelude::*;

verus! {

/// Map from identifiers to slot numbers, held by `hashbrown::HashMap`.
///
/// The bound on the allocator parameter of `hashbrown::HashMap` is a trait that
/// cannot be named from here, so the map is held in a private field.
#[verifier::external_body]
pub struct IdIndex {
    inner: hashbrown::HashMap<u64, usize>,
}

/// The entries that the hash map holds.
pub uninterp spec fn id_index_entries(index: IdIndex) -> Map<u64, usize>;

/// `hashbrown::HashMap::new`: a map without entries.
#[verifier::external_body]
fn index_new() -> (index: IdIndex)
    ensures
        id_index_entries(index).dom() == Set::<u64>::empty(),
{
    IdIndex { inner: hashbrown::HashMap::new() }
}

/// `hashbrown::HashMap::get`: the value stored under `id`, if there is one.
#[verifier::external_body]
fn index_get(index: &IdIndex, id: u64) -> (slot: Option<usize>)
    ensures
        slot == (if id_index_entries(*index).dom().contains(id) {
            Some(id_index_entries(*index)[id])
        } else {
            None
        }),
{
    index.inner.get(&id).copied()
}

/// `hashbrown::HashMap::insert`: stores `slot` under `id` and hands back the
/// value that was stored there before. Nothing else changes.
#[verifier::external_body]
fn index_insert(index: &mut IdIndex, id: u64, slot: usize) -> (previous: Option<usize>)
    ensures
        id_index_entries(*final(index)) == id_index_entries(*old(index)).insert(id, slot),
        previous == (if id_index_entries(*old(index)).dom().contains(id) {
            Some(id_index_entries(*old(index))[id])
        } else {
            None
        }),
{
    index.inner.insert(id, slot)
}

/// `hashbrown::HashMap::remove`: takes the entry of `id` out and hands its value
/// back. Nothing else changes.
#[verifier::external_body]
fn index_remove(index: &mut IdIndex, id: u64) -> (previous: Option<usize>)
    ensures
        id_index_entries(*final(index)) == id_index_entries(*old(index)).remove(id),
        previous == (if id_index_entries(*old(index)).dom().contains(id) {
            Some(id_index_entries(*old(index))[id])
        } else {
            None
        }),
{
    index.inner.remove(&id)
}

/// Table from identifiers to values.
///
/// The view is the mathematical map; [`IdTable::order`] is the sequence in
/// which the entries are walked.
#[verifier::reject_recursive_types(V)]
pub struct IdTable<V> {
    index: IdIndex,
    keys: Vec<u64>,
    values: Vec<V>,
}

impl<V> View for IdTable<V> {
    type V = Map<u64, V>;

    closed spec fn view(&self) -> Map<u64, V> {
        Map::new(
            |id: u64| id_index_entries(self.index).dom().contains(id),
            |id: u64| self.values@[id_index_entries(self.index)[id] as int],
        )
    }
}

impl<V> IdTable<V> {
    /// The identifiers in the order in which the table is walked.
    pub closed spec fn order(&self) -> Seq<u64> {
        self.keys@
    }

    /// The slot map, the key list and the value list describe the same entries.
    pub closed spec fn wf(&self) -> bool {
        let entries = id_index_entries(self.index);
        &&& self.keys@.len() == self.values@.len()
        &&& forall|i: int|
            0 <= i < self.keys@.len() ==> entries.dom().contains(#[trigger] self.keys@[i])
                && entries[self.keys@[i]] == i
        &&& forall|id: u64| #[trigger]
            entries.dom().contains(id) ==> entries[id] < self.keys@.len()
                && self.keys@[entries[id] as int] == id
    }

    /// The walking order lists every entry of the table, each once.
    pub proof fn lemma_order(&self)
        requires
            self.wf(),
        ensures
            self.order().no_duplicates(),
            forall|id: u64| self@.dom().contains(id) <==> self.order().contains(id),
            self.order().to_set() == self@.dom(),
            self@.dom().finite(),
            self@.dom().len() == self.order().len(),
    {
        let entries = id_index_entries(self.index);
        assert forall|id: u64| self@.dom().contains(id) implies self.order().contains(id) by {
            assert(entries.dom().contains(id));
            assert(self.keys@[entries[id] as int] == id);
        }
        assert forall|id: u64| self.order().contains(id) implies self@.dom().contains(id) by {
            let i = choose|i: int| 0 <= i < self.keys@.len() && self.keys@[i] == id;
            assert(entries.dom().contains(self.keys@[i]));
        }
        assert(self.order().no_duplicates()) by {
            assert forall|i: int, j: int|
                0 <= i < self.keys@.len() && 0 <= j < self.keys@.len() && i
                    != j implies self.keys@[i] != self.keys@[j] by {
                assert(entries[self.keys@[i]] == i);
                assert(entries[self.keys@[j]] == j);
            }
        }
        assert(self.order().to_set() =~= self@.dom());
        self.order().unique_seq_to_set();
        vstd::seq_lib::seq_to_set_is_finite(self.order());
    }

    /// A table without entries.
    pub fn new() -> (table: Self)
        ensures
            table.wf(),
            table@ == Map::<u64, V>::empty(),
            table.order() == Seq::<u64>::empty(),
    {
        let table = IdTable { index: index_new(), keys: Vec::new(), values: Vec::new() };
        assert(table@ =~= Map::<u64, V>::empty());
        table
    }

    /// Number of entries.
    pub fn len(&self) -> (count: usize)
        requires
            self.wf(),
        ensures
            count == self.order().len(),
            count == self@.dom().len(),
            self@.dom().finite(),
    {
        proof {
            self.lemma_order();
        }
        self.keys.len()
    }

    /// Whether the table has no entry.
    pub fn is_empty(&self) -> (empty: bool)
        requires
            self.wf(),
        ensures
            empty <==> self.order().len() == 0,
            empty <==> self@ == Map::<u64, V>::empty(),
    {
        proof {
            self.lemma_order();
            if self.order().len() == 0 {
                assert(self@ =~= Map::<u64, V>::empty());
            } else {
                assert(self.order().contains(self.order()[0]));
            }
        }
        self.keys.len() == 0
    }

    /// Whether `id` has an entry.
    pub fn contains(&self, id: u64) -> (found: bool)
        requires
            self.wf(),
        ensures
            found == self@.dom().contains(id),
    {
        index_get(&self.index, id).is_some()
    }

    /// The value of `id`, if it has an entry.
    pub fn get(&self, id: u64) -> (value: Option<&V>)
        requires
            self.wf(),
        ensures
            match value {
                Some(v) => self@.dom().contains(id) && *v == self@[id],
                None => !self@.dom().contains(id),
            },
    {
        match index_get(&self.index, id) {
            Some(slot) => Some(&self.values[slot]),
            None => None,
        }
    }

    /// The identifier at position `position` of the walking order.
    pub fn key_at(&self, position: usize) -> (id: u64)
        requires
            self.wf(),
            position < self.order().len(),
        ensures
            id == self.order()[position as int],
            self@.dom().contains(id),
    {
        self.keys[position]
    }

    /// The value at position `position` of the walking order.
    pub fn value_at(&self, position: usize) -> (value: &V)
        requires
            self.wf(),
            position < self.order().len(),
        ensures
            *value == self@[self.order()[position as int]],
    {
        &self.values[position]
    }

    /// The identifiers of all entries, in walking order.
    pub fn keys(&self) -> (ids: Vec<u64>)
        requires
            self.wf(),
        ensures
            ids@ == self.order(),
    {
        let mut ids: Vec<u64> = Vec::new();
        let mut i: usize = 0;
        while i < self.keys.len()
            invariant
                i <= self.keys@.len(),
                ids@ == self.keys@.subrange(0, i as int),
            decreases self.keys@.len() - i,
        {
            ids.push(self.keys[i]);
            i = i + 1;
        }
        assert(ids@ =~= self.keys@);
        ids
    }

    /// Stores `value` under `id` and hands back the value it replaces.
    ///
    /// A new identifier goes to the end of the walking order; a known one keeps
    /// its place.
    pub fn insert(&mut self, id: u64, value: V) -> (previous: Option<V>)
        requires
            old(self).wf(),
        ensures
            final(self).wf(),
            final(self)@ == old(self)@.insert(id, value),
            final(self).order() == (if old(self)@.dom().contains(id) {
                old(self).order()
            } else {
                old(self).order().push(id)
            }),
            previous == (if old(self)@.dom().contains(id) {
                Some(old(self)@[id])
            } else {
                None
            }),
    {
        match index_get(&self.index, id) {
            Some(slot) => {
                let mut value = value;
                self.values.push(value);
                let previous = self.values.swap_remove(slot);
                assert(self.values@ =~= old(self).values@.update(slot as int, value));
                assert(self@ =~= old(self)@.insert(id, value)) by {
                    assert forall|other: u64| self@.dom().contains(other) && other != id implies
                        self@[other] == old(self)@[other] by {
                        let entries = id_index_entries(self.index);
                        assert(entries[other] != entries[id]);
                    }
                }
                Some(previous)
            },
            None => {
                let slot: usize = self.keys.len();
                self.keys.push(id);
                self.values.push(value);
                let _ = index_insert(&mut self.index, id, slot);
                assert(self@ =~= old(self)@.insert(id, value));
                None
            },
        }
    }

    /// Takes the entry of `id` out and hands its value back.
    ///
    /// The entry that was last in the walking order takes the freed place.
    pub fn remove(&mut self, id: u64) -> (previous: Option<V>)
        requires
            old(self).wf(),
        ensures
            final(self).wf(),
            final(self)@ == old(self)@.remove(id),
            previous == (if old(self)@.dom().contains(id) {
                Some(old(self)@[id])
            } else {
                None
            }),
            !old(self)@.dom().contains(id) ==> final(self).order() == old(self).order(),
    {
        match index_get(&self.index, id) {
            Some(slot) => {
                let last: usize = self.keys.len() - 1;
                let moved: u64 = self.keys[last];
                let _ = index_insert(&mut self.index, moved, slot);
                let _ = index_remove(&mut self.index, id);
                let _ = self.keys.swap_remove(slot);
                let previous = self.values.swap_remove(slot);
                proof {
                    let before = id_index_entries(old(self).index);
                    let after = id_index_entries(self.index);
                    assert forall|i: int| 0 <= i < self.keys@.len() implies after.dom().contains(
                        #[trigger] self.keys@[i],
                    ) && after[self.keys@[i]] == i by {
                        if i == slot {
                            assert(self.keys@[i] == moved);
                            assert(before[old(self).keys@[last as int]] == last);
                        } else {
                            assert(self.keys@[i] == old(self).keys@[i]);
                            assert(before[old(self).keys@[i]] == i);
                        }
                    }
                    assert(self@ =~= old(self)@.remove(id));
                }
                Some(previous)
            },
            None => {
                assert(self@ =~= old(self)@.remove(id));
                None
            },
        }
    }
}

} // verus!
