//! Ordered run queues.
//!
//! A queue holds pairs of a virtual timestamp and a task id, smallest first.
//! The view is the set of pairs; [`RunQueue::order`] is the same set as an
//! ascending sequence.

use vstd::prelude::*;

verus! {

/// Lexicographic order of queue entries.
pub open spec fn entry_before(a: (u128, u64), b: (u128, u64)) -> bool {
    a.0 < b.0 || (a.0 == b.0 && a.1 < b.1)
}

/// Whether the sequence ascends strictly.
pub open spec fn ascending(entries: Seq<(u128, u64)>) -> bool {
    forall|i: int, j: int|
        0 <= i < j < entries.len() ==> entry_before(#[trigger] entries[i], #[trigger] entries[j])
}

/// Run queue ordered by virtual timestamp, then by task id.
pub struct RunQueue {
    entries: Vec<(u128, u64)>,
}

impl View for RunQueue {
    type V = Set<(u128, u64)>;

    closed spec fn view(&self) -> Set<(u128, u64)> {
        self.entries@.to_set()
    }
}

impl RunQueue {
    /// The entries in ascending order.
    pub closed spec fn order(&self) -> Seq<(u128, u64)> {
        self.entries@
    }

    pub closed spec fn wf(&self) -> bool {
        ascending(self.entries@)
    }

    /// The ascending sequence and the set describe the same entries.
    pub proof fn lemma_order(&self)
        requires
            self.wf(),
        ensures
            ascending(self.order()),
            self.order().to_set() == self@,
            self.order().no_duplicates(),
            forall|e: (u128, u64)| self@.contains(e) <==> self.order().contains(e),
            forall|i: int| 0 <= i < self.order().len() ==> self@.contains(#[trigger] self.order()[i]),
            self@.finite(),
            self@.len() == self.order().len(),
    {
        self.order().unique_seq_to_set();
        vstd::seq_lib::seq_to_set_is_finite(self.order());
    }

    /// A queue without entries.
    pub fn new() -> (queue: Self)
        ensures
            queue.wf(),
            queue@ == Set::<(u128, u64)>::empty(),
    {
        let queue = RunQueue { entries: Vec::new() };
        assert(queue@ =~= Set::<(u128, u64)>::empty());
        queue
    }

    pub fn len(&self) -> (count: usize)
        requires
            self.wf(),
        ensures
            count == self.order().len(),
            count == self@.len(),
    {
        proof {
            self.lemma_order();
        }
        self.entries.len()
    }

    pub fn is_empty(&self) -> (empty: bool)
        requires
            self.wf(),
        ensures
            empty <==> self@ == Set::<(u128, u64)>::empty(),
            empty <==> self.order().len() == 0,
    {
        proof {
            self.lemma_order();
            if self.order().len() > 0 {
                assert(self@.contains(self.order()[0]));
            } else {
                assert(self@ =~= Set::<(u128, u64)>::empty());
            }
        }
        self.entries.len() == 0
    }

    /// The entry at `position` of the ascending order.
    pub fn entry_at(&self, position: usize) -> (entry: (u128, u64))
        requires
            self.wf(),
            position < self.order().len(),
        ensures
            entry == self.order()[position as int],
            self@.contains(entry),
    {
        self.entries[position]
    }

    /// The smallest entry.
    pub fn front(&self) -> (entry: Option<(u128, u64)>)
        requires
            self.wf(),
        ensures
            match entry {
                Some(least) => self@.contains(least) && forall|other: (u128, u64)| #[trigger]
                    self@.contains(other) && other != least ==> entry_before(least, other),
                None => self@ == Set::<(u128, u64)>::empty(),
            },
    {
        if self.is_empty() {
            None
        } else {
            let least = self.entries[0];
            proof {
                assert forall|other: (u128, u64)| #[trigger]
                    self@.contains(other) && other != least implies entry_before(least, other) by {
                    let i = choose|i: int| 0 <= i < self.entries@.len() && self.entries@[i] == other;
                    assert(entry_before(self.entries@[0], self.entries@[i]));
                }
            }
            Some(least)
        }
    }

    /// Adds an entry at its place.
    pub fn insert(&mut self, entry: (u128, u64))
        requires
            old(self).wf(),
            !old(self)@.contains(entry),
        ensures
            final(self).wf(),
            final(self)@ == old(self)@.insert(entry),
    {
        let mut position: usize = 0;
        while position < self.entries.len() && (self.entries[position].0 < entry.0 || (
        self.entries[position].0 == entry.0 && self.entries[position].1 < entry.1))
            invariant
                position <= self.entries@.len(),
                forall|i: int| 0 <= i < position ==> entry_before(#[trigger] self.entries@[i], entry),
                self.entries@ == old(self).entries@,
            decreases self.entries@.len() - position,
        {
            position = position + 1;
        }
        let ghost before = self.entries@;
        proof {
            if position < before.len() {
                assert(before.contains(before[position as int]));
                assert(before[position as int] != entry);
                assert(entry_before(entry, before[position as int]));
            }
        }
        self.entries.insert(position, entry);
        proof {
            let after = self.entries@;
            assert(after == before.insert(position as int, entry));
            assert forall|i: int, j: int| 0 <= i < j < after.len() implies entry_before(
                #[trigger] after[i],
                #[trigger] after[j],
            ) by {
                if i < position && j > position {
                    assert(entry_before(before[i], before[j - 1]));
                } else if i < position && j < position {
                    assert(entry_before(before[i], before[j]));
                } else if i == position {
                    if j > position + 1 {
                        assert(entry_before(before[position as int], before[j - 1]));
                    }
                } else if i > position {
                    assert(entry_before(before[i - 1], before[j - 1]));
                }
            }
            assert(self@ =~= old(self)@.insert(entry)) by {
                assert forall|e: (u128, u64)| old(self)@.insert(entry).contains(e) implies
                    self@.contains(e) by {
                    if e == entry {
                        assert(after[position as int] == entry);
                    } else {
                        let i = choose|i: int| 0 <= i < before.len() && before[i] == e;
                        if i < position {
                            assert(after[i] == e);
                        } else {
                            assert(after[i + 1] == e);
                        }
                    }
                }
                assert forall|e: (u128, u64)| self@.contains(e) implies old(self)@.insert(
                    entry,
                ).contains(e) by {
                    let i = choose|i: int| 0 <= i < after.len() && after[i] == e;
                    if i < position {
                        assert(before[i] == e);
                    } else if i > position {
                        assert(before[i - 1] == e);
                    }
                }
            }
        }
    }

    /// Takes out the entry at `position` of the ascending order.
    pub fn remove_at(&mut self, position: usize) -> (entry: (u128, u64))
        requires
            old(self).wf(),
            position < old(self).order().len(),
        ensures
            final(self).wf(),
            entry == old(self).order()[position as int],
            final(self)@ == old(self)@.remove(entry),
    {
        let ghost before = self.entries@;
        let entry = self.entries.remove(position);
        proof {
            let after = self.entries@;
            assert(after == before.remove(position as int));
            assert forall|i: int, j: int| 0 <= i < j < after.len() implies entry_before(
                #[trigger] after[i],
                #[trigger] after[j],
            ) by {
                let bi = if i < position {
                    i
                } else {
                    i + 1
                };
                let bj = if j < position {
                    j
                } else {
                    j + 1
                };
                assert(entry_before(before[bi], before[bj]));
            }
            assert(self@ =~= old(self)@.remove(entry)) by {
                assert forall|e: (u128, u64)| old(self)@.remove(entry).contains(e) implies
                    self@.contains(e) by {
                    let i = choose|i: int| 0 <= i < before.len() && before[i] == e;
                    if i < position {
                        assert(after[i] == e);
                    } else {
                        assert(after[i - 1] == e);
                    }
                }
                assert forall|e: (u128, u64)| self@.contains(e) implies old(self)@.remove(
                    entry,
                ).contains(e) by {
                    let i = choose|i: int| 0 <= i < after.len() && after[i] == e;
                    let bi = if i < position {
                        i
                    } else {
                        i + 1
                    };
                    assert(before[bi] == e);
                    if bi < position {
                        assert(entry_before(before[bi], before[position as int]));
                    } else {
                        assert(entry_before(before[position as int], before[bi]));
                    }
                }
            }
        }
        entry
    }

    /// Place of an entry in the ascending order.
    fn position_of(&self, entry: (u128, u64)) -> (position: Option<usize>)
        requires
            self.wf(),
        ensures
            match position {
                Some(at) => at < self.order().len() && self.order()[at as int] == entry,
                None => !self@.contains(entry),
            },
    {
        let mut position: usize = 0;
        while position < self.entries.len()
            invariant
                position <= self.entries@.len(),
                forall|i: int| 0 <= i < position ==> #[trigger] self.entries@[i] != entry,
            decreases self.entries@.len() - position,
        {
            if self.entries[position].0 == entry.0 && self.entries[position].1 == entry.1 {
                return Some(position);
            }
            position = position + 1;
        }
        None
    }

    /// Takes an entry out, wherever it stands; tells whether it was there.
    pub fn remove(&mut self, entry: (u128, u64)) -> (removed: bool)
        requires
            old(self).wf(),
        ensures
            final(self).wf(),
            removed == old(self)@.contains(entry),
            final(self)@ == old(self)@.remove(entry),
    {
        match self.position_of(entry) {
            Some(position) => {
                proof {
                    self.lemma_order();
                }
                let _ = self.remove_at(position);
                true
            },
            None => {
                assert(self@ =~= old(self)@.remove(entry));
                false
            },
        }
    }

    /// Takes out the smallest entry.
    pub fn pop_front(&mut self) -> (entry: Option<(u128, u64)>)
        requires
            old(self).wf(),
        ensures
            final(self).wf(),
            match entry {
                Some(least) => {
                    &&& old(self)@.contains(least)
                    &&& forall|other: (u128, u64)| #[trigger]
                        old(self)@.contains(other) && other != least ==> entry_before(least, other)
                    &&& final(self)@ == old(self)@.remove(least)
                },
                None => old(self)@ == Set::<(u128, u64)>::empty() && final(self)@ == old(self)@,
            },
    {
        match self.front() {
            Some(_least) => {
                proof {
                    self.lemma_order();
                    assert(self@.contains(self.order()[0]));
                    if self.order()[0] != _least {
                        assert(entry_before(_least, self.order()[0]));
                        let i = choose|i: int|
                            0 <= i < self.order().len() && self.order()[i] == _least;
                        assert(entry_before(self.order()[0], self.order()[i]));
                    }
                }
                Some(self.remove_at(0))
            },
            None => None,
        }
    }
}

} // verus!
