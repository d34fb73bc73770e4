//! Waiting for words of user memory to change.

use crate::collections::IdTable;
use crate::sched::clock::{listen_for, wait_limit, Duration};
use vstd::prelude::*;

verus! {

/// Errors of futex operations.
#[derive(Debug, Clone, Copy, PartialEq, Eq, Structural)]
pub enum FutexError {
    InvalidArgument,
    Fault,
    WouldBlock,
    TimedOut,
}

/// A word of memory, whatever address it is mapped at.
#[derive(Debug, Clone, Copy, PartialEq, Eq, Structural)]
pub struct FutexKey {
    pub vmo_id: u64,
    pub vmo_offset: usize,
}

/// Memory object that another one shows a part of.
#[derive(Debug, Clone, Copy, PartialEq, Eq, Structural)]
pub struct SharedParent {
    pub parent_id: u64,
    pub parent_offset: usize,
}

/// What is mapped at a user address.
#[derive(Debug, Clone, Copy, PartialEq, Eq, Structural)]
pub struct FutexMapping {
    pub vmo_id: u64,
    /// Offset of the address in the memory object, where it has one.
    pub vmo_offset: Option<usize>,
    /// The parent, where the memory object is a shared view of it.
    pub shared: Option<SharedParent>,
}

/// The word that a mapping shows: that of the parent for a shared view.
pub open spec fn key_of(mapping: Option<FutexMapping>) -> Result<FutexKey, FutexError> {
    match mapping {
        None => Err(FutexError::Fault),
        Some(mapping) => match mapping.vmo_offset {
            None => Err(FutexError::Fault),
            Some(offset) => match mapping.shared {
                None => Ok(FutexKey { vmo_id: mapping.vmo_id, vmo_offset: offset }),
                Some(parent) => if parent.parent_offset + offset > usize::MAX {
                    Err(FutexError::Fault)
                } else {
                    Ok(
                        FutexKey {
                            vmo_id: parent.parent_id,
                            vmo_offset: (parent.parent_offset + offset) as usize,
                        },
                    )
                },
            },
        },
    }
}

/// Finds the word behind a user address; `None` where nothing is mapped there.
pub fn addr_to_key(mapping: Option<FutexMapping>) -> (key: Result<FutexKey, FutexError>)
    ensures
        key == key_of(mapping),
        key is Ok <==> (mapping matches Some(shown) && shown.vmo_offset is Some && shown_word(
            shown,
        ).1 <= usize::MAX),
        key matches Ok(word) ==> (word.vmo_id, word.vmo_offset as int) == shown_word(mapping->0),
{
    let mapping = match mapping {
        Some(mapping) => mapping,
        None => {
            return Err(FutexError::Fault);
        },
    };
    let offset: usize = match mapping.vmo_offset {
        Some(offset) => offset,
        None => {
            return Err(FutexError::Fault);
        },
    };
    match mapping.shared {
        None => Ok(FutexKey { vmo_id: mapping.vmo_id, vmo_offset: offset }),
        Some(parent) => match parent.parent_offset.checked_add(offset) {
            Some(vmo_offset) => Ok(FutexKey { vmo_id: parent.parent_id, vmo_offset }),
            None => Err(FutexError::Fault),
        },
    }
}

/// Two addresses that show the same word of a parent wait for the same word.
pub proof fn law_shared_views_meet(a: FutexMapping, b: FutexMapping)
    requires
        a.vmo_offset is Some,
        b.vmo_offset is Some,
        a.shared is Some,
        b.shared is Some,
        a.shared->0.parent_id == b.shared->0.parent_id,
        a.shared->0.parent_offset + a.vmo_offset->0 == b.shared->0.parent_offset + b.vmo_offset->0,
    ensures
        key_of(Some(a)) == key_of(Some(b)),
{
}

/// The memory object whose word a mapping shows, and where in it the word is.
pub open spec fn shown_word(mapping: FutexMapping) -> (u64, int) {
    match mapping.shared {
        Some(parent) => (parent.parent_id, parent.parent_offset + mapping.vmo_offset->0),
        None => (mapping.vmo_id, mapping.vmo_offset->0 as int),
    }
}

/// A mapping gives a key where it has an offset that can be counted in the object
/// whose word it shows, and the key names that word.
pub proof fn law_key_names_the_shown_word(mapping: FutexMapping)
    ensures
        key_of(Some(mapping)) is Ok <==> mapping.vmo_offset is Some && shown_word(mapping).1
            <= usize::MAX,
        key_of(Some(mapping)) matches Ok(key) ==> (key.vmo_id, key.vmo_offset as int)
            == shown_word(mapping),
        key_of(Some(mapping)) is Err ==> key_of(Some(mapping)) == Err::<FutexKey, FutexError>(
            FutexError::Fault,
        ),
        key_of(None) == Err::<FutexKey, FutexError>(FutexError::Fault),
{
}

/// Different words stay apart: two mappings that both give a key give the same key
/// exactly if they show the same offset of the same memory object, counted in the
/// parent for a shared view.
pub proof fn law_different_words_stay_apart(a: FutexMapping, b: FutexMapping)
    requires
        key_of(Some(a)) is Ok,
        key_of(Some(b)) is Ok,
    ensures
        key_of(Some(a)) == key_of(Some(b)) <==> shown_word(a) == shown_word(b),
        a.shared is None && b.shared is None ==> (key_of(Some(a)) == key_of(Some(b)) <==> a.vmo_id
            == b.vmo_id && a.vmo_offset == b.vmo_offset),
        a.shared is Some && b.shared is None && key_of(Some(a)) == key_of(Some(b)) ==>
            a.shared->0.parent_id == b.vmo_id && a.shared->0.parent_offset + a.vmo_offset->0
            == b.vmo_offset->0,
{
}

/// Waiters of one word, the one that came first in front.
struct FutexWaitQueue {
    offset: usize,
    waiters: Vec<u64>,
}

/// Position of the queue of an offset; the number of queues where there is none.
spec fn find_queue(queues: Seq<FutexWaitQueue>, offset: usize, from: int) -> int
    decreases queues.len() - from,
{
    if from >= queues.len() {
        queues.len() as int
    } else if queues[from].offset == offset {
        from
    } else {
        find_queue(queues, offset, from + 1)
    }
}

proof fn lemma_find(queues: Seq<FutexWaitQueue>, offset: usize, from: int)
    requires
        0 <= from <= queues.len(),
    ensures
        from <= find_queue(queues, offset, from) <= queues.len(),
        find_queue(queues, offset, from) < queues.len() ==> queues[find_queue(
            queues,
            offset,
            from,
        )].offset == offset,
        forall|i: int|
            from <= i < find_queue(queues, offset, from) ==> (#[trigger] queues[i]).offset
                != offset,
    decreases queues.len() - from,
{
    if from < queues.len() && queues[from].offset != offset {
        lemma_find(queues, offset, from + 1);
    }
}

proof fn lemma_find_is(queues: Seq<FutexWaitQueue>, offset: usize, from: int, at: int)
    requires
        0 <= from <= at <= queues.len(),
        at < queues.len() ==> queues[at].offset == offset,
        forall|i: int| from <= i < at ==> (#[trigger] queues[i]).offset != offset,
    ensures
        find_queue(queues, offset, from) == at,
    decreases at - from,
{
    if from < at {
        lemma_find_is(queues, offset, from + 1, at);
    }
}

/// Runtime-owned futex wait/wake service used by userspace synchronization
/// syscalls.
pub struct FutexManager {
    queues: IdTable<Vec<FutexWaitQueue>>,
}

/// The waiters of a word.
pub open spec fn waiting(words: Map<FutexKey, Seq<u64>>, key: FutexKey) -> Seq<u64> {
    if words.dom().contains(key) {
        words[key]
    } else {
        Seq::empty()
    }
}

/// The words once the waiters of one have changed. A word that nobody waits for
/// is forgotten.
pub open spec fn with_waiting(
    words: Map<FutexKey, Seq<u64>>,
    key: FutexKey,
    waiters: Seq<u64>,
) -> Map<FutexKey, Seq<u64>> {
    if waiters.len() == 0 {
        words.remove(key)
    } else {
        words.insert(key, waiters)
    }
}

/// Waiters that a wake takes from the front of a queue.
pub open spec fn wake_len(waiters: Seq<u64>, wake_count: int) -> int {
    if wake_count < waiters.len() {
        wake_count
    } else {
        waiters.len() as int
    }
}

impl View for FutexManager {
    type V = Map<FutexKey, Seq<u64>>;

    closed spec fn view(&self) -> Map<FutexKey, Seq<u64>> {
        Map::new(
            |key: FutexKey|
                self.queues@.dom().contains(key.vmo_id) && find_queue(
                    self.queues@[key.vmo_id]@,
                    key.vmo_offset,
                    0,
                ) < self.queues@[key.vmo_id]@.len(),
            |key: FutexKey|
                self.queues@[key.vmo_id]@[find_queue(
                    self.queues@[key.vmo_id]@,
                    key.vmo_offset,
                    0,
                )].waiters@,
        )
    }
}

impl FutexManager {
    /// Every word in the registry has a waiter, and each has one queue.
    pub closed spec fn wf(&self) -> bool {
        &&& self.queues.wf()
        &&& forall|id: u64| #[trigger]
            self.queues@.dom().contains(id) ==> Self::queues_wf(self.queues@[id]@)
    }

    spec fn queues_wf(queues: Seq<FutexWaitQueue>) -> bool {
        &&& queues.len() > 0
        &&& forall|i: int| 0 <= i < queues.len() ==> (#[trigger] queues[i]).waiters@.len() > 0
        &&& forall|i: int, j: int|
            0 <= i < j < queues.len() ==> (#[trigger] queues[i]).offset != (
            #[trigger] queues[j]).offset
    }

    /// Create one empty futex wait registry.
    pub fn new() -> (manager: Self)
        ensures
            manager.wf(),
            manager@ == Map::<FutexKey, Seq<u64>>::empty(),
    {
        let manager = FutexManager { queues: IdTable::new() };
        assert(manager@ =~= Map::<FutexKey, Seq<u64>>::empty());
        manager
    }

    /// Takes the queues of a memory object out of the registry.
    fn take_queues(&mut self, vmo_id: u64) -> (queues: Vec<FutexWaitQueue>)
        requires
            old(self).wf(),
        ensures
            final(self).queues.wf(),
            final(self).queues@ == old(self).queues@.remove(vmo_id),
            queues@ == (if old(self).queues@.dom().contains(vmo_id) {
                old(self).queues@[vmo_id]@
            } else {
                Seq::empty()
            }),
    {
        match self.queues.remove(vmo_id) {
            Some(queues) => queues,
            None => Vec::new(),
        }
    }

    fn put_queues(&mut self, vmo_id: u64, queues: Vec<FutexWaitQueue>)
        requires
            old(self).queues.wf(),
            !old(self).queues@.dom().contains(vmo_id),
        ensures
            final(self).queues.wf(),
            final(self).queues@ == (if queues@.len() == 0 {
                old(self).queues@
            } else {
                old(self).queues@.insert(vmo_id, queues)
            }),
    {
        if queues.len() > 0 {
            let _ = self.queues.insert(vmo_id, queues);
        }
    }

    fn position(queues: &Vec<FutexWaitQueue>, offset: usize) -> (at: usize)
        ensures
            at == find_queue(queues@, offset, 0),
            at <= queues@.len(),
    {
        let mut at: usize = 0;
        while at < queues.len()
            invariant
                at <= queues@.len(),
                find_queue(queues@, offset, 0) == find_queue(queues@, offset, at as int),
            decreases queues@.len() - at,
        {
            if queues[at].offset == offset {
                return at;
            }
            at = at + 1;
        }
        at
    }

    /// What the registry shows once the queues of a memory object have changed
    /// for one word only.
    proof fn lemma_view_after(
        &self,
        before: &Self,
        key: FutexKey,
        queues: Seq<FutexWaitQueue>,
        after: Seq<FutexWaitQueue>,
        waiters: Seq<u64>,
    )
        requires
            before.wf(),
            self.queues.wf(),
            queues == (if before.queues@.dom().contains(key.vmo_id) {
                before.queues@[key.vmo_id]@
            } else {
                Seq::<FutexWaitQueue>::empty()
            }),
            forall|id: u64|
                id != key.vmo_id ==> (#[trigger] self.queues@.dom().contains(id)
                    == before.queues@.dom().contains(id)),
            forall|id: u64|
                id != key.vmo_id && #[trigger] self.queues@.dom().contains(id) ==> self.queues@[id]
                    == before.queues@[id],
            self.queues@.dom().contains(key.vmo_id) == (after.len() > 0),
            after.len() > 0 ==> self.queues@[key.vmo_id]@ == after,
            after.len() > 0 ==> Self::queues_wf(after),
            find_queue(after, key.vmo_offset, 0) < after.len() <==> waiters.len() > 0,
            waiters.len() > 0 ==> after[find_queue(after, key.vmo_offset, 0)].waiters@ == waiters,
            forall|offset: usize|
                offset != key.vmo_offset ==> (#[trigger] find_queue(after, offset, 0) < after.len())
                    == (find_queue(queues, offset, 0) < queues.len()),
            forall|offset: usize|
                offset != key.vmo_offset && #[trigger] find_queue(after, offset, 0) < after.len()
                    ==> after[find_queue(after, offset, 0)].waiters@ == queues[find_queue(
                    queues,
                    offset,
                    0,
                )].waiters@,
        ensures
            self.wf(),
            self@ == with_waiting(before@, key, waiters),
    {
        assert forall|id: u64| #[trigger] self.queues@.dom().contains(id) implies Self::queues_wf(
            self.queues@[id]@,
        ) by {
            if id != key.vmo_id {
                assert(before.queues@.dom().contains(id));
            }
        }
        let expected = with_waiting(before@, key, waiters);
        assert forall|other: FutexKey| self@.dom().contains(other) == expected.dom().contains(
            other,
        ) by {
            if other.vmo_id == key.vmo_id {
                let f = find_queue(after, other.vmo_offset, 0);
                lemma_find(after, other.vmo_offset, 0);
                lemma_find(queues, other.vmo_offset, 0);
            } else {
                assert(self.queues@.dom().contains(other.vmo_id)
                    == before.queues@.dom().contains(other.vmo_id));
            }
        }
        assert forall|other: FutexKey| self@.dom().contains(other) implies self@[other]
            == expected[other] by {
            if other.vmo_id == key.vmo_id {
                let f = find_queue(after, other.vmo_offset, 0);
                lemma_find(after, other.vmo_offset, 0);
                lemma_find(queues, other.vmo_offset, 0);
            } else {
                assert(self.queues@.dom().contains(other.vmo_id)
                    == before.queues@.dom().contains(other.vmo_id));
            }
        }
        assert(self@ =~= expected);
    }

    /// Puts a waiter behind the others of its word.
    pub fn insert_waiter(&mut self, key: FutexKey, waiter: u64)
        requires
            old(self).wf(),
        ensures
            final(self).wf(),
            final(self)@ == with_waiting(old(self)@, key, waiting(old(self)@, key).push(waiter)),
    {
        let mut queues = self.take_queues(key.vmo_id);
        let ghost before = queues@;
        let at: usize = Self::position(&queues, key.vmo_offset);
        proof {
            lemma_find(before, key.vmo_offset, 0);
        }
        if at < queues.len() {
            queues[at].waiters.push(waiter);
        } else {
            let mut waiters: Vec<u64> = Vec::new();
            waiters.push(waiter);
            queues.push(FutexWaitQueue { offset: key.vmo_offset, waiters });
        }
        let ghost after = queues@;
        self.put_queues(key.vmo_id, queues);
        proof {
            let waiters = waiting(old(self)@, key).push(waiter);
            if at < before.len() {
                assert(after[at as int].waiters@ =~= waiters);
            } else {
                assert(waiting(old(self)@, key) =~= Seq::<u64>::empty());
                assert(after[at as int].waiters@ =~= waiters);
            }
            lemma_find_is(after, key.vmo_offset, 0, at as int);
            assert forall|offset: usize| offset != key.vmo_offset implies (#[trigger] find_queue(
                after,
                offset,
                0,
            ) < after.len()) == (find_queue(before, offset, 0) < before.len()) && (find_queue(
                after,
                offset,
                0,
            ) < after.len() ==> after[find_queue(after, offset, 0)].waiters@ == before[find_queue(
                before,
                offset,
                0,
            )].waiters@) by {
                lemma_find(before, offset, 0);
                let f = find_queue(before, offset, 0);
                if f < before.len() {
                    lemma_find_is(after, offset, 0, f);
                } else {
                    lemma_find_is(after, offset, 0, after.len() as int);
                }
            }
            self.lemma_view_after(old(self), key, before, after, waiters);
        }
    }

    /// Puts the queues of a word back after some of its waiters have gone.
    fn restore(
        &mut self,
        Ghost(first): Ghost<&Self>,
        key: FutexKey,
        queues: Vec<FutexWaitQueue>,
        at: usize,
        waiters: Vec<u64>,
    )
        requires
            first.wf(),
            old(self).queues.wf(),
            old(self).queues@ == first.queues@.remove(key.vmo_id),
            first.queues@.dom().contains(key.vmo_id),
            queues@ == first.queues@[key.vmo_id]@,
            at == find_queue(queues@, key.vmo_offset, 0),
            at < queues@.len(),
        ensures
            final(self).wf(),
            final(self)@ == with_waiting(first@, key, waiters@),
    {
        let mut queues = queues;
        let ghost before = queues@;
        proof {
            lemma_find(before, key.vmo_offset, 0);
            assert(Self::queues_wf(before));
        }
        let ghost left = waiters@;
        if waiters.len() == 0 {
            let _ = queues.remove(at);
        } else {
            queues[at].waiters = waiters;
        }
        let ghost after = queues@;
        self.put_queues(key.vmo_id, queues);
        proof {
            if left.len() == 0 {
                assert(after == before.remove(at as int));
                lemma_find_is(after, key.vmo_offset, 0, after.len() as int);
            } else {
                lemma_find_is(after, key.vmo_offset, 0, at as int);
            }
            assert forall|offset: usize| offset != key.vmo_offset implies (#[trigger] find_queue(
                after,
                offset,
                0,
            ) < after.len()) == (find_queue(before, offset, 0) < before.len()) && (find_queue(
                after,
                offset,
                0,
            ) < after.len() ==> after[find_queue(after, offset, 0)].waiters@ == before[find_queue(
                before,
                offset,
                0,
            )].waiters@) by {
                lemma_find(before, offset, 0);
                let f = find_queue(before, offset, 0);
                if left.len() > 0 {
                    lemma_find_is(after, offset, 0, f);
                } else if f == before.len() {
                    lemma_find_is(after, offset, 0, after.len() as int);
                } else if f < at {
                    lemma_find_is(after, offset, 0, f);
                } else {
                    lemma_find_is(after, offset, 0, f - 1);
                }
            }
            self.lemma_view_after(first, key, before, after, left);
        }
    }

    /// Takes a waiter out of the queue of its word, wherever it stands.
    pub fn remove_waiter(&mut self, key: FutexKey, waiter: u64) -> (removed: bool)
        requires
            old(self).wf(),
        ensures
            final(self).wf(),
            removed == waiting(old(self)@, key).contains(waiter),
            final(self)@ == (if removed {
                with_waiting(
                    old(self)@,
                    key,
                    waiting(old(self)@, key).remove(
                        waiting(old(self)@, key).index_of_first(waiter)->0,
                    ),
                )
            } else {
                old(self)@
            }),
    {
        let mut queues = self.take_queues(key.vmo_id);
        let ghost before = queues@;
        let at: usize = Self::position(&queues, key.vmo_offset);
        proof {
            lemma_find(before, key.vmo_offset, 0);
        }
        if at >= queues.len() {
            self.put_queues(key.vmo_id, queues);
            proof {
                self.lemma_unchanged(old(self), key.vmo_id);
            }
            return false;
        }
        let ghost listed = waiting(old(self)@, key);
        assert(listed == queues@[at as int].waiters@);
        let mut i: usize = 0;
        while i < queues[at].waiters.len()
            invariant
                at < queues@.len(),
                queues@ == before,
                i <= listed.len(),
                listed == queues@[at as int].waiters@,
                forall|j: int| 0 <= j < i ==> listed[j] != waiter,
            ensures
                i < listed.len() ==> listed[i as int] == waiter,
            decreases listed.len() - i,
        {
            if queues[at].waiters[i] == waiter {
                break ;
            }
            i = i + 1;
        }
        if i >= queues[at].waiters.len() {
            self.put_queues(key.vmo_id, queues);
            proof {
                self.lemma_unchanged(old(self), key.vmo_id);
            }
            return false;
        }
        let mut waiters = clone_ids(&queues[at].waiters);
        let _ = waiters.remove(i);
        proof {
            assert(listed[i as int] == waiter);
            lemma_first_index(listed, waiter, i as int);
        }
        self.restore(Ghost(old(self)), key, queues, at, waiters);
        true
    }

    proof fn lemma_unchanged(&self, before: &Self, vmo_id: u64)
        requires
            before.wf(),
            self.queues.wf(),
            self.queues@ == before.queues@.remove(vmo_id) && !before.queues@.dom().contains(vmo_id)
                || before.queues@.dom().contains(vmo_id) && exists|queues: Vec<FutexWaitQueue>|
                self.queues@ == before.queues@.remove(vmo_id).insert(vmo_id, queues)
                    && queues@ == before.queues@[vmo_id]@,
        ensures
            self.wf(),
            self@ == before@,
    {
        assert forall|id: u64| #[trigger] self.queues@.dom().contains(id) implies Self::queues_wf(
            self.queues@[id]@,
        ) by {
            assert(before.queues@.dom().contains(id));
        }
        assert(self@ =~= before@);
    }

    /// Takes up to a number of waiters from the front of the queue of a word.
    pub fn take_woken_waiters(&mut self, key: FutexKey, wake_count: usize) -> (ready: Vec<u64>)
        requires
            old(self).wf(),
        ensures
            final(self).wf(),
            ({
                let listed = waiting(old(self)@, key);
                let len = wake_len(listed, wake_count as int);
                &&& ready@ == listed.take(len)
                &&& final(self)@ == if listed.len() == 0 {
                    old(self)@
                } else {
                    with_waiting(old(self)@, key, listed.skip(len))
                }
            }),
    {
        let mut queues = self.take_queues(key.vmo_id);
        let ghost before = queues@;
        let at: usize = Self::position(&queues, key.vmo_offset);
        proof {
            lemma_find(before, key.vmo_offset, 0);
        }
        if at >= queues.len() {
            self.put_queues(key.vmo_id, queues);
            proof {
                self.lemma_unchanged(old(self), key.vmo_id);
                assert(waiting(old(self)@, key).take(0) =~= Seq::<u64>::empty());
            }
            return Vec::new();
        }
        let ghost listed = waiting(old(self)@, key);
        assert(listed == queues@[at as int].waiters@);
        assert(listed.len() > 0);
        let total: usize = queues[at].waiters.len();
        let len: usize = if wake_count < total {
            wake_count
        } else {
            total
        };
        let mut ready: Vec<u64> = Vec::new();
        let mut rest: Vec<u64> = Vec::new();
        let mut i: usize = 0;
        while i < total
            invariant
                i <= total,
                len <= total,
                total == listed.len(),
                at < queues@.len(),
                queues@ == before,
                listed == queues@[at as int].waiters@,
                i <= len ==> ready@ == listed.take(i as int) && rest@.len() == 0,
                i >= len ==> ready@ == listed.take(len as int) && rest@ == listed.subrange(
                    len as int,
                    i as int,
                ),
            decreases total - i,
        {
            let waiter: u64 = queues[at].waiters[i];
            if i < len {
                ready.push(waiter);
                assert(ready@ =~= listed.take(i + 1));
            } else {
                rest.push(waiter);
                assert(rest@ =~= listed.subrange(len as int, i + 1));
            }
            i = i + 1;
        }
        assert(rest@ =~= listed.skip(len as int));
        self.restore(Ghost(old(self)), key, queues, at, rest);
        ready
    }
}

/// A wait that has begun: the word, and how long the caller listens for its
/// wakeup. Without a limit it listens until it is woken.
#[derive(Debug, Clone, Copy, PartialEq, Eq, Structural)]
pub struct FutexWait {
    pub key: FutexKey,
    pub limit: Option<Duration>,
}

/// What a request to wait leads to at once: nothing, where the caller has to
/// sleep.
pub open spec fn wait_refusal(
    user_addr: usize,
    mapping: Option<FutexMapping>,
    observed: Option<u32>,
    expected: u32,
    timeout_ns: usize,
) -> Option<FutexError> {
    if user_addr % 4 != 0 {
        Some(FutexError::InvalidArgument)
    } else if key_of(mapping) is Err || observed is None {
        Some(FutexError::Fault)
    } else if observed != Some(expected) {
        Some(FutexError::WouldBlock)
    } else if timeout_ns == 0 {
        Some(FutexError::TimedOut)
    } else {
        None
    }
}

/// What a request to wait does to the registry, and what it returns.
pub open spec fn wait_effect(
    before: Map<FutexKey, Seq<u64>>,
    after: Map<FutexKey, Seq<u64>>,
    user_addr: usize,
    mapping: Option<FutexMapping>,
    observed: Option<u32>,
    expected: u32,
    timeout_ns: usize,
    waiter: u64,
    result: Result<FutexWait, FutexError>,
) -> bool {
    match wait_refusal(user_addr, mapping, observed, expected, timeout_ns) {
        Some(error) => result == Err::<FutexWait, FutexError>(error) && after == before,
        None => {
            let key = key_of(mapping)->Ok_0;
            &&& result == Ok::<FutexWait, FutexError>(
                FutexWait { key, limit: wait_limit(timeout_ns) },
            )
            &&& after == with_waiting(before, key, waiting(before, key).push(waiter))
        },
    }
}

/// What the end of a wait does to the registry, and what it returns.
pub open spec fn end_effect(
    before: Map<FutexKey, Seq<u64>>,
    after: Map<FutexKey, Seq<u64>>,
    key: FutexKey,
    waiter: u64,
    woken: bool,
    notified: bool,
    result: Result<(), FutexError>,
) -> bool {
    &&& result == (if woken || notified {
        Ok::<(), FutexError>(())
    } else {
        Err::<(), FutexError>(FutexError::TimedOut)
    })
    &&& after == (if !woken && !notified && waiting(before, key).contains(waiter) {
        with_waiting(
            before,
            key,
            waiting(before, key).remove(waiting(before, key).index_of_first(waiter)->0),
        )
    } else {
        before
    })
}

/// What a wake does to the registry, and whom it wakes.
pub open spec fn wake_effect(
    before: Map<FutexKey, Seq<u64>>,
    after: Map<FutexKey, Seq<u64>>,
    user_addr: usize,
    mapping: Option<FutexMapping>,
    wake_count: usize,
    result: Result<Seq<u64>, FutexError>,
) -> bool {
    if user_addr % 4 != 0 {
        result == Err::<Seq<u64>, FutexError>(FutexError::InvalidArgument) && after == before
    } else if wake_count == 0 {
        result == Ok::<Seq<u64>, FutexError>(Seq::empty()) && after == before
    } else {
        match key_of(mapping) {
            Err(error) => result == Err::<Seq<u64>, FutexError>(error) && after == before,
            Ok(key) => {
                let listed = waiting(before, key);
                let len = wake_len(listed, wake_count as int);
                &&& result == Ok::<Seq<u64>, FutexError>(listed.take(len))
                &&& after == if listed.len() == 0 {
                    before
                } else {
                    with_waiting(before, key, listed.skip(len))
                }
            },
        }
    }
}

/// A list of waiters, or why there is none.
pub open spec fn listed_result(result: Result<Vec<u64>, FutexError>) -> Result<
    Seq<u64>,
    FutexError,
> {
    match result {
        Ok(ready) => Ok(ready@),
        Err(error) => Err(error),
    }
}

impl FutexManager {
    /// Begins to wait for one futex word to change: the caller has to sleep
    /// where the word is still as expected. `observed` is `None` where the word
    /// cannot be read.
    pub fn start_wait(
        &mut self,
        user_addr: usize,
        mapping: Option<FutexMapping>,
        observed: Option<u32>,
        expected: u32,
        timeout_ns: usize,
        waiter: u64,
    ) -> (result: Result<FutexWait, FutexError>)
        requires
            old(self).wf(),
        ensures
            final(self).wf(),
            wait_effect(
                old(self)@,
                final(self)@,
                user_addr,
                mapping,
                observed,
                expected,
                timeout_ns,
                waiter,
                result,
            ),
            match wait_refusal(user_addr, mapping, observed, expected, timeout_ns) {
                Some(error) => result == Err::<FutexWait, FutexError>(error) && final(self)@
                    == old(self)@,
                None => {
                    let key = key_of(mapping)->Ok_0;
                    &&& result == Ok::<FutexWait, FutexError>(
                        FutexWait { key, limit: wait_limit(timeout_ns) },
                    )
                    &&& final(self)@ == with_waiting(
                        old(self)@,
                        key,
                        waiting(old(self)@, key).push(waiter),
                    )
                },
            },
    {
        if user_addr % 4 != 0 {
            return Err(FutexError::InvalidArgument);
        }
        let key = match addr_to_key(mapping) {
            Ok(key) => key,
            Err(error) => {
                return Err(error);
            },
        };
        match observed {
            None => {
                return Err(FutexError::Fault);
            },
            Some(value) => {
                if value != expected {
                    return Err(FutexError::WouldBlock);
                }
            },
        }
        if timeout_ns == 0 {
            return Err(FutexError::TimedOut);
        }
        self.insert_waiter(key, waiter);
        Ok(FutexWait { key, limit: listen_for(timeout_ns) })
    }

    /// Ends a wait, woken by another caller, by the notification or by the
    /// timeout. A waiter that was not woken leaves its queue.
    pub fn finish_wait(&mut self, key: FutexKey, waiter: u64, woken: bool, notified: bool) -> (result:
        Result<(), FutexError>)
        requires
            old(self).wf(),
        ensures
            final(self).wf(),
            end_effect(old(self)@, final(self)@, key, waiter, woken, notified, result),
            result == (if woken || notified {
                Ok::<(), FutexError>(())
            } else {
                Err::<(), FutexError>(FutexError::TimedOut)
            }),
            final(self)@ == (if !woken && !notified && waiting(old(self)@, key).contains(waiter) {
                with_waiting(
                    old(self)@,
                    key,
                    waiting(old(self)@, key).remove(
                        waiting(old(self)@, key).index_of_first(waiter)->0,
                    ),
                )
            } else {
                old(self)@
            }),
    {
        if woken || notified {
            return Ok(());
        }
        let _ = self.remove_waiter(key, waiter);
        Err(FutexError::TimedOut)
    }

    /// Wake up to `wake_count` waiters blocked on one futex word; they are
    /// handed back in the order in which they came.
    pub fn wake(&mut self, user_addr: usize, mapping: Option<FutexMapping>, wake_count: usize) -> (result:
        Result<Vec<u64>, FutexError>)
        requires
            old(self).wf(),
        ensures
            final(self).wf(),
            wake_effect(
                old(self)@,
                final(self)@,
                user_addr,
                mapping,
                wake_count,
                listed_result(result),
            ),
            if user_addr % 4 != 0 {
                &&& result matches Err(error)
                &&& error == FutexError::InvalidArgument
                &&& final(self)@ == old(self)@
            } else if wake_count == 0 {
                &&& result matches Ok(ready)
                &&& ready@.len() == 0
                &&& final(self)@ == old(self)@
            } else {
                match key_of(mapping) {
                    Err(wrong) => {
                        &&& result matches Err(error)
                        &&& error == wrong
                        &&& final(self)@ == old(self)@
                    },
                    Ok(key) => {
                        let listed = waiting(old(self)@, key);
                        let len = wake_len(listed, wake_count as int);
                        &&& result matches Ok(ready)
                        &&& ready@ == listed.take(len)
                        &&& final(self)@ == if listed.len() == 0 {
                            old(self)@
                        } else {
                            with_waiting(old(self)@, key, listed.skip(len))
                        }
                    },
                }
            },
    {
        if user_addr % 4 != 0 {
            return Err(FutexError::InvalidArgument);
        }
        if wake_count == 0 {
            return Ok(Vec::new());
        }
        match addr_to_key(mapping) {
            Ok(key) => Ok(self.take_woken_waiters(key, wake_count)),
            Err(error) => Err(error),
        }
    }
}

/// A caller sleeps exactly where its address is aligned and mapped, the word can be
/// read and still has the expected value, and it is willing to wait. It then waits
/// behind all others of that word; a refused caller is in no queue.
pub proof fn law_waiter_sleeps_while_word_is_unchanged(
    before: Map<FutexKey, Seq<u64>>,
    after: Map<FutexKey, Seq<u64>>,
    user_addr: usize,
    mapping: FutexMapping,
    observed: Option<u32>,
    expected: u32,
    timeout_ns: usize,
    waiter: u64,
    result: Result<FutexWait, FutexError>,
    other: FutexKey,
)
    requires
        wait_effect(
            before,
            after,
            user_addr,
            Some(mapping),
            observed,
            expected,
            timeout_ns,
            waiter,
            result,
        ),
    ensures
        result is Ok <==> user_addr % 4 == 0 && mapping.vmo_offset is Some && shown_word(mapping).1
            <= usize::MAX && observed == Some(expected) && timeout_ns > 0,
        user_addr % 4 != 0 ==> result == Err::<FutexWait, FutexError>(FutexError::InvalidArgument),
        result is Err ==> after == before,
        observed matches Some(value) && value != expected && user_addr % 4 == 0
            && mapping.vmo_offset is Some && shown_word(mapping).1 <= usize::MAX ==> result == Err::<
            FutexWait,
            FutexError,
        >(FutexError::WouldBlock),
        observed == Some(expected) && user_addr % 4 == 0 && mapping.vmo_offset is Some
            && shown_word(mapping).1 <= usize::MAX && timeout_ns == 0 ==> result == Err::<
            FutexWait,
            FutexError,
        >(FutexError::TimedOut),
        result matches Ok(wait) ==> {
            &&& (wait.key.vmo_id, wait.key.vmo_offset as int) == shown_word(mapping)
            &&& after.dom().contains(wait.key)
            &&& after[wait.key].last() == waiter
            &&& before.dom().contains(wait.key) ==> after[wait.key].drop_last()
                == before[wait.key]
            &&& !before.dom().contains(wait.key) ==> after[wait.key].len() == 1
            &&& other != wait.key ==> (after.dom().contains(other) <==> before.dom().contains(
                other,
            )) && after[other] == before[other]
            &&& timeout_ns == usize::MAX <==> wait.limit is None
            &&& wait.limit matches Some(limit) ==> limit.nanos == timeout_ns
        },
{
    if result is Ok {
        let key = result->Ok_0.key;
        let listed = waiting(before, key);
        assert(listed.push(waiter).drop_last() =~= listed);
    }
}

/// A wake takes waiters of the word that its address shows and of no other, the
/// longest waiting first, as many as asked for or as there are. Whoever is not
/// woken goes on waiting, in the same order.
pub proof fn law_wake_takes_the_longest_waiting(
    before: Map<FutexKey, Seq<u64>>,
    after: Map<FutexKey, Seq<u64>>,
    user_addr: usize,
    mapping: FutexMapping,
    wake_count: usize,
    key: FutexKey,
    ready: Seq<u64>,
    other: FutexKey,
)
    requires
        wake_effect(before, after, user_addr, Some(mapping), wake_count, Ok(ready)),
        (key.vmo_id, key.vmo_offset as int) == shown_word(mapping),
        mapping.vmo_offset is Some,
        before.dom().contains(key),
    ensures
        user_addr % 4 == 0,
        ready.len() == wake_count || (ready.len() == before[key].len() && ready.len()
            < wake_count),
        ready == before[key].take(ready.len() as int),
        after.dom().contains(key) ==> ready + after[key] == before[key],
        !after.dom().contains(key) ==> ready == before[key],
        other != key ==> (after.dom().contains(other) <==> before.dom().contains(other))
            && after[other] == before[other],
{
    let listed = before[key];
    if wake_count > 0 {
        let len = wake_len(listed, wake_count as int);
        assert(listed.take(len) + listed.skip(len) =~= listed);
    } else {
        assert(ready =~= listed.take(0));
        assert(ready + listed =~= listed);
    }
}

/// A wake on one word wakes nobody who waits for another.
pub proof fn law_wake_spares_other_words(
    before: Map<FutexKey, Seq<u64>>,
    after: Map<FutexKey, Seq<u64>>,
    user_addr: usize,
    mapping: FutexMapping,
    wake_count: usize,
    result: Result<Seq<u64>, FutexError>,
    other: FutexKey,
)
    requires
        wake_effect(before, after, user_addr, Some(mapping), wake_count, result),
        (other.vmo_id, other.vmo_offset as int) != shown_word(mapping),
    ensures
        after.dom().contains(other) <==> before.dom().contains(other),
        after[other] == before[other],
{
}

/// A wait that ends without a wakeup has timed out, and its caller no longer
/// waits; one that was woken succeeds.
pub proof fn law_wait_ends_woken_or_timed_out(
    before: Map<FutexKey, Seq<u64>>,
    after: Map<FutexKey, Seq<u64>>,
    key: FutexKey,
    waiter: u64,
    woken: bool,
    notified: bool,
    result: Result<(), FutexError>,
    other: FutexKey,
)
    requires
        end_effect(before, after, key, waiter, woken, notified, result),
        before.dom().contains(key),
        before[key].no_duplicates(),
    ensures
        result is Ok <==> woken || notified,
        woken || notified ==> after == before,
        !woken && !notified ==> !(after.dom().contains(key) && after[key].contains(waiter)),
        !woken && !notified ==> result == Err::<(), FutexError>(FutexError::TimedOut),
        !woken && !notified && after.dom().contains(key) && before[key].contains(waiter) ==>
            after[key].len() == before[key].len() - 1,
        other != key ==> (after.dom().contains(other) <==> before.dom().contains(other))
            && after[other] == before[other],
{
    let listed = before[key];
    if !woken && !notified && listed.contains(waiter) {
        listed.index_of_first_ensures(waiter);
        let at = listed.index_of_first(waiter)->0;
        let rest = listed.remove(at);
        assert forall|k: int| 0 <= k < rest.len() implies rest[k] != waiter by {
            assert(rest[k] == if k < at {
                listed[k]
            } else {
                listed[k + 1]
            });
        }
    }
}

/// A waiter that times out leaves the registry as it was before it came, where
/// nobody came behind it.
pub proof fn law_timeout_undoes_wait(
    words: Map<FutexKey, Seq<u64>>,
    key: FutexKey,
    waiter: u64,
)
    requires
        words.dom().contains(key) ==> words[key].len() > 0,
        !waiting(words, key).contains(waiter),
    ensures
        ({
            let during = with_waiting(words, key, waiting(words, key).push(waiter));
            let listed = waiting(during, key);
            &&& listed.contains(waiter)
            &&& with_waiting(during, key, listed.remove(listed.index_of_first(waiter)->0)) == words
        }),
{
    let during = with_waiting(words, key, waiting(words, key).push(waiter));
    let listed = waiting(during, key);
    let last = listed.len() - 1;
    assert(listed == waiting(words, key).push(waiter));
    lemma_first_index(listed, waiter, last);
    assert(listed.remove(last) =~= waiting(words, key));
    assert(with_waiting(during, key, waiting(words, key)) =~= words);
}

/// Waiters are woken in the order in which they came, and waking them in two
/// turns wakes the same ones as waking them in one.
pub proof fn law_wakes_are_in_order(listed: Seq<u64>, first: int, second: int)
    requires
        0 <= first,
        0 <= second,
    ensures
        ({
            let a = wake_len(listed, first);
            let rest = listed.skip(a);
            let b = wake_len(rest, second);
            listed.take(a) + rest.take(b) == listed.take(wake_len(listed, first + second))
        }),
{
    let a = wake_len(listed, first);
    let rest = listed.skip(a);
    let b = wake_len(rest, second);
    assert(listed.take(a) + rest.take(b) =~= listed.take(wake_len(listed, first + second)));
}

fn clone_ids(ids: &Vec<u64>) -> (copy: Vec<u64>)
    ensures
        copy@ == ids@,
{
    let mut copy: Vec<u64> = Vec::new();
    let mut i: usize = 0;
    while i < ids.len()
        invariant
            i <= ids@.len(),
            copy@ == ids@.take(i as int),
        decreases ids@.len() - i,
    {
        copy.push(ids[i]);
        i = i + 1;
        assert(copy@ =~= ids@.take(i as int));
    }
    assert(ids@.take(i as int) =~= ids@);
    copy
}

proof fn lemma_first_index(ids: Seq<u64>, id: u64, at: int)
    requires
        0 <= at < ids.len(),
        ids[at] == id,
        forall|j: int| 0 <= j < at ==> ids[j] != id,
    ensures
        ids.contains(id),
        ids.index_of_first(id) == Some(at),
{
    assert(ids.contains(id));
    ids.index_of_first_ensures(id);
    let found = ids.index_of_first(id)->0;
    if found < at {
        assert(ids[found] == id);
    }
}

/// A wait is refused at once where the address is not that of a word, the word
/// cannot be reached, it has changed, or no time was given, in that order.
pub proof fn law_hopeless_waits_are_refused(
    user_addr: usize,
    mapping: Option<FutexMapping>,
    observed: Option<u32>,
    expected: u32,
    timeout_ns: usize,
)
    ensures
        ({
            let refusal = wait_refusal(user_addr, mapping, observed, expected, timeout_ns);
            &&& user_addr % 4 != 0 ==> refusal == Some(FutexError::InvalidArgument)
            &&& user_addr % 4 == 0 && (key_of(mapping) is Err || observed is None) ==> refusal
                == Some(FutexError::Fault)
            &&& user_addr % 4 == 0 && key_of(mapping) is Ok && observed is Some
                && observed->Some_0 != expected ==> refusal == Some(FutexError::WouldBlock)
            &&& user_addr % 4 == 0 && key_of(mapping) is Ok && observed == Some(expected)
                && timeout_ns == 0 ==> refusal == Some(FutexError::TimedOut)
            &&& user_addr % 4 == 0 && key_of(mapping) is Ok && observed == Some(expected)
                && timeout_ns > 0 ==> refusal is None
        }),
{
}

/// Waiters are kept word by word. A word that nobody waits for is not kept.
pub proof fn law_waiters_are_kept_by_word(
    words: Map<FutexKey, Seq<u64>>,
    key: FutexKey,
    waiters: Seq<u64>,
    other: FutexKey,
)
    ensures
        waiting(with_waiting(words, key, waiters), key) == waiters,
        other != key ==> waiting(with_waiting(words, key, waiters), other) == waiting(words, other),
        with_waiting(words, key, waiters).contains_key(key) <==> waiters.len() > 0,
        words.contains_key(key) ==> waiting(words, key) == words[key],
        !words.contains_key(key) ==> waiting(words, key).len() == 0,
{
    assert(waiting(with_waiting(words, key, waiters), key) =~= waiters);
}

} // verus!
