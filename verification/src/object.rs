//! Handles, capabilities and the table that maps slots to handles.

use crate::collections::IdTable;
use vstd::prelude::*;

verus! {

/// Errors of the object system.
#[derive(Debug, Clone, Copy, PartialEq, Eq, Structural)]
pub enum ObjectError {
    InsufficientCapabilities,
    InvalidArgument,
    ObjectDestroyed,
    ObjectNotFound,
}

/// Set of access rights.
#[derive(Debug, Clone, Copy, PartialEq, Eq, Structural)]
pub struct Capability {
    pub read: bool,
    pub write: bool,
    pub execute: bool,
    pub agent: bool,
    pub admin: bool,
    pub send: bool,
}

impl Capability {
    /// Whether every right of `other` is in this set.
    pub open spec fn includes(self, other: Capability) -> bool {
        &&& other.read ==> self.read
        &&& other.write ==> self.write
        &&& other.execute ==> self.execute
        &&& other.agent ==> self.agent
        &&& other.admin ==> self.admin
        &&& other.send ==> self.send
    }

    /// A set of plain access rights, without those of an owner.
    pub open spec fn plain(read: bool, write: bool, execute: bool, send: bool) -> Capability {
        Capability { read, write, execute, agent: false, admin: false, send }
    }

    /// The empty set.
    pub fn none() -> (set: Self)
        ensures
            set == (Capability {
                read: false,
                write: false,
                execute: false,
                agent: false,
                admin: false,
                send: false,
            }),
    {
        Capability {
            read: false,
            write: false,
            execute: false,
            agent: false,
            admin: false,
            send: false,
        }
    }

    pub fn contains(self, other: Capability) -> (contains: bool)
        ensures
            contains == self.includes(other),
    {
        (!other.read || self.read) && (!other.write || self.write) && (!other.execute
            || self.execute) && (!other.agent || self.agent) && (!other.admin || self.admin) && (
        !other.send || self.send)
    }

    /// The rights of this set that are not in `other`.
    pub fn without(self, other: Capability) -> (rest: Capability)
        ensures
            rest == (Capability {
                read: self.read && !other.read,
                write: self.write && !other.write,
                execute: self.execute && !other.execute,
                agent: self.agent && !other.agent,
                admin: self.admin && !other.admin,
                send: self.send && !other.send,
            }),
    {
        Capability {
            read: self.read && !other.read,
            write: self.write && !other.write,
            execute: self.execute && !other.execute,
            agent: self.agent && !other.agent,
            admin: self.admin && !other.admin,
            send: self.send && !other.send,
        }
    }
}

/// Handle to an object, as far as the kernel logic reads it.
#[derive(Debug, Clone, Copy, PartialEq, Eq, Structural)]
pub struct Handle {
    /// Key of the object.
    pub object: u64,
    pub capabilities: Capability,
    pub interface_caps: u32,
    /// What the object system answers to a request to clone the handle.
    pub clone_refusal: Option<ObjectError>,
    /// What the object system answers to a request for another reference.
    pub acquire_refusal: Option<ObjectError>,
    /// What the object system answers to a request for the key of the object.
    pub key_refusal: Option<ObjectError>,
    /// What the object system answers to a request to derive a handle from this
    /// one.
    pub derive_refusal: Option<ObjectError>,
}

impl Handle {
    pub open spec fn cloned(self) -> Result<Handle, ObjectError> {
        match self.clone_refusal {
            Some(error) => Err(error),
            None => Ok(self),
        }
    }

    pub open spec fn acquired(self) -> Result<Handle, ObjectError> {
        match self.acquire_refusal {
            Some(error) => Err(error),
            None => Ok(self),
        }
    }

    /// A handle to the same object with just these rights, if the object system
    /// gives it.
    pub open spec fn derived(self, capabilities: Capability, interface_caps: u32) -> Result<
        Handle,
        ObjectError,
    > {
        match self.derive_refusal {
            Some(error) => Err(error),
            None => Ok(Handle { capabilities, interface_caps, ..self }),
        }
    }

    /// The handle without some of its rights.
    pub open spec fn downgraded(self, dropped: Capability, dropped_caps: u32) -> Handle {
        Handle {
            capabilities: Capability {
                read: self.capabilities.read && !dropped.read,
                write: self.capabilities.write && !dropped.write,
                execute: self.capabilities.execute && !dropped.execute,
                agent: self.capabilities.agent && !dropped.agent,
                admin: self.capabilities.admin && !dropped.admin,
                send: self.capabilities.send && !dropped.send,
            },
            interface_caps: self.interface_caps & !dropped_caps,
            ..self
        }
    }

    /// The key of the object, if the object system tells it.
    pub open spec fn keyed(self) -> Result<u64, ObjectError> {
        match self.key_refusal {
            Some(error) => Err(error),
            None => Ok(self.object),
        }
    }

    /// The key of the object.
    pub fn object_key(&self) -> (key: Result<u64, ObjectError>)
        ensures
            key == self.keyed(),
    {
        match self.key_refusal {
            Some(error) => Err(error),
            None => Ok(self.object),
        }
    }

    /// Derives a handle to the same object with just these rights.
    pub fn derive_handle(&self, capabilities: Capability, interface_caps: u32) -> (derived: Result<
        Handle,
        ObjectError,
    >)
        ensures
            derived == self.derived(capabilities, interface_caps),
    {
        match self.derive_refusal {
            Some(error) => Err(error),
            None => Ok(Handle { capabilities, interface_caps, ..*self }),
        }
    }

    /// Gives up some of the rights.
    pub fn downgrade(&self, dropped: Capability, dropped_caps: u32) -> (rest: Handle)
        ensures
            rest == self.downgraded(dropped, dropped_caps),
    {
        Handle {
            capabilities: self.capabilities.without(dropped),
            interface_caps: self.interface_caps & !dropped_caps,
            ..*self
        }
    }

    pub fn try_clone(&self) -> (clone: Result<Handle, ObjectError>)
        ensures
            clone == self.cloned(),
    {
        match self.clone_refusal {
            Some(error) => Err(error),
            None => Ok(*self),
        }
    }

    pub fn acquire_ref(&self) -> (reference: Result<Handle, ObjectError>)
        ensures
            reference == self.acquired(),
    {
        match self.acquire_refusal {
            Some(error) => Err(error),
            None => Ok(*self),
        }
    }

    /// Whether the handle may be moved through a message.
    pub fn can_send(&self) -> (sendable: bool)
        ensures
            sendable == self.capabilities.send,
    {
        self.capabilities.send
    }
}

/// Process-local table from slots to handles.
pub struct HandleTable {
    entries: IdTable<Handle>,
}

impl View for HandleTable {
    type V = Map<u64, Handle>;

    closed spec fn view(&self) -> Map<u64, Handle> {
        self.entries@
    }
}

/// The lowest slot that is not in use.
pub open spec fn lowest_free(table: Map<u64, Handle>, slot: u32) -> bool {
    &&& !table.dom().contains(slot as u64)
    &&& forall|other: u32| other < slot ==> table.dom().contains(#[trigger] (other as u64))
}

/// Whether some slot is free.
pub open spec fn has_free_slot(table: Map<u64, Handle>) -> bool {
    exists|slot: u32| !table.dom().contains(#[trigger] (slot as u64))
}

/// A table with fewer entries than there are slot numbers has a free slot.
pub proof fn lemma_room(table: Map<u64, Handle>)
    requires
        table.dom().finite(),
        table.dom().len() < 0x1_0000_0000,
    ensures
        has_free_slot(table),
{
    if !has_free_slot(table) {
        let numbers = vstd::set_lib::set_int_range(0, 0x1_0000_0000);
        vstd::set_lib::lemma_int_range(0, 0x1_0000_0000);
        let widen = |i: int| i as u64;
        let slots = numbers.map(widen);
        assert forall|a: int, b: int|
            numbers.contains(a) && numbers.contains(b) && #[trigger] widen(a) == #[trigger] widen(
                b,
            ) implies a == b by {}
        vstd::set_lib::lemma_map_size(numbers, slots, widen);
        assert(slots.subset_of(table.dom())) by {
            assert forall|slot: u64| slots.contains(slot) implies table.dom().contains(slot) by {
                let i = choose|i: int| numbers.contains(i) && widen(i) == slot;
                let narrow = i as u32;
                assert(table.dom().contains(narrow as u64));
            }
        }
        vstd::set_lib::lemma_len_subset(slots, table.dom());
    }
}

/// The table after the handles have been put into the slots, in order.
pub open spec fn table_after(
    table: Map<u64, Handle>,
    handles: Seq<Handle>,
    slots: Seq<u32>,
) -> Map<u64, Handle>
    decreases slots.len(),
{
    if slots.len() == 0 {
        table
    } else {
        table_after(table, handles, slots.drop_last()).insert(
            slots.last() as u64,
            handles[slots.len() - 1],
        )
    }
}

/// Whether each slot was the lowest free one when its handle came.
pub open spec fn slots_in_turn(
    table: Map<u64, Handle>,
    handles: Seq<Handle>,
    slots: Seq<u32>,
) -> bool
    decreases slots.len(),
{
    slots.len() == 0 || (slots_in_turn(table, handles, slots.drop_last()) && lowest_free(
        table_after(table, handles, slots.drop_last()),
        slots.last(),
    ))
}

/// The handles behind the slots, or the first refusal.
pub open spec fn acquire_all(table: Map<u64, Handle>, slots: Seq<u32>) -> Result<
    Seq<Handle>,
    ObjectError,
>
    decreases slots.len(),
{
    if slots.len() == 0 {
        Ok(Seq::empty())
    } else {
        match acquire_all(table, slots.drop_last()) {
            Err(error) => Err(error),
            Ok(handles) => match HandleTable::acquired(table, slots.last()) {
                Err(error) => Err(error),
                Ok(handle) => Ok(handles.push(handle)),
            },
        }
    }
}

/// The table after the slots have been closed in order, up to the first that
/// is not in use.
pub open spec fn close_all(table: Map<u64, Handle>, slots: Seq<u32>) -> Map<u64, Handle>
    decreases slots.len(),
{
    if slots.len() == 0 {
        table
    } else if !table.dom().contains(slots[0] as u64) {
        table
    } else {
        close_all(table.remove(slots[0] as u64), slots.skip(1))
    }
}

/// Whether every slot is in use when its turn to be closed comes.
pub open spec fn closes_all(table: Map<u64, Handle>, slots: Seq<u32>) -> bool
    decreases slots.len(),
{
    slots.len() == 0 || (table.dom().contains(slots[0] as u64) && closes_all(
        table.remove(slots[0] as u64),
        slots.skip(1),
    ))
}

/// Whether a slot is in the list.
pub open spec fn in_slots(slots: Seq<u32>, slot: u64) -> bool {
    exists|j: int| 0 <= j < slots.len() && slot == #[trigger] slots[j] as u64
}

/// The table without the handles of the slots.
pub open spec fn without_slots(table: Map<u64, Handle>, slots: Seq<u32>) -> Map<u64, Handle> {
    Map::new(
        |slot: u64| table.dom().contains(slot) && !in_slots(slots, slot),
        |slot: u64| table[slot],
    )
}

impl HandleTable {
    pub closed spec fn wf(&self) -> bool {
        self.entries.wf()
    }

    pub proof fn lemma_finite(&self)
        requires
            self.wf(),
        ensures
            self@.dom().finite(),
    {
        self.entries.lemma_order();
    }

    /// Closes the slots in order and stops at the first that is not in use.
    pub fn close_handles(&mut self, slots: &Vec<u32>) -> (result: Result<(), ObjectError>)
        requires
            old(self).wf(),
        ensures
            final(self).wf(),
            final(self)@ == close_all(old(self)@, slots@),
            result == (if closes_all(old(self)@, slots@) {
                Ok::<(), ObjectError>(())
            } else {
                Err::<(), ObjectError>(ObjectError::ObjectNotFound)
            }),
    {
        let mut i: usize = 0;
        assert(slots@.skip(0) =~= slots@);
        while i < slots.len()
            invariant
                i <= slots@.len(),
                self.wf(),
                close_all(old(self)@, slots@) == close_all(self@, slots@.skip(i as int)),
                closes_all(old(self)@, slots@) == closes_all(self@, slots@.skip(i as int)),
            decreases slots@.len() - i,
        {
            proof {
                assert(slots@.skip(i as int)[0] == slots@[i as int]);
                assert(slots@.skip(i as int).skip(1) =~= slots@.skip(i + 1));
                if !self@.dom().contains(slots@[i as int] as u64) {
                    assert(self@.remove(slots@[i as int] as u64) =~= self@);
                }
            }
            match self.close_handle(slots[i]) {
                Ok(()) => {},
                Err(error) => {
                    return Err(error);
                },
            }
            i = i + 1;
        }
        assert(slots@.skip(i as int) =~= Seq::<u32>::empty());
        Ok(())
    }

    /// References to the handles of all the slots, or the first refusal.
    pub fn acquire_handles(&self, slots: &Vec<u32>) -> (result: Result<Vec<Handle>, ObjectError>)
        requires
            self.wf(),
        ensures
            match result {
                Ok(handles) => acquire_all(self@, slots@) == Ok::<Seq<Handle>, ObjectError>(
                    handles@,
                ) && handles@.len() == slots@.len(),
                Err(error) => acquire_all(self@, slots@) == Err::<Seq<Handle>, ObjectError>(error),
            },
    {
        let mut handles: Vec<Handle> = Vec::new();
        let mut i: usize = 0;
        assert(slots@.take(0) =~= Seq::<u32>::empty());
        while i < slots.len()
            invariant
                i <= slots@.len(),
                self.wf(),
                handles@.len() == i,
                acquire_all(self@, slots@.take(i as int)) == Ok::<Seq<Handle>, ObjectError>(
                    handles@,
                ),
            decreases slots@.len() - i,
        {
            proof {
                assert(slots@.take(i + 1).drop_last() =~= slots@.take(i as int));
                assert(slots@.take(i + 1).last() == slots@[i as int]);
            }
            match self.acquire_handle(slots[i]) {
                Ok(handle) => {
                    handles.push(handle);
                },
                Err(error) => {
                    proof {
                        lemma_acquire_error(self@, slots@, i as int);
                    }
                    return Err(error);
                },
            }
            i = i + 1;
        }
        assert(slots@.take(i as int) =~= slots@);
        Ok(handles)
    }

    /// Puts handles into the lowest free slots, one after the other.
    pub fn install_handles(&mut self, handles: &Vec<Handle>) -> (slots: Vec<u32>)
        requires
            old(self).wf(),
            old(self)@.dom().len() + handles@.len() <= 0x1_0000_0000,
        ensures
            final(self).wf(),
            slots@.len() == handles@.len(),
            slots_in_turn(old(self)@, handles@, slots@),
            final(self)@ == table_after(old(self)@, handles@, slots@),
            final(self)@.dom().len() == old(self)@.dom().len() + handles@.len(),
    {
        let mut slots: Vec<u32> = Vec::new();
        let mut i: usize = 0;
        while i < handles.len()
            invariant
                i <= handles@.len(),
                self.wf(),
                slots@.len() == i,
                old(self)@.dom().len() + handles@.len() <= 0x1_0000_0000,
                self@.dom().len() == old(self)@.dom().len() + i,
                slots_in_turn(old(self)@, handles@, slots@),
                self@ == table_after(old(self)@, handles@, slots@),
            decreases handles@.len() - i,
        {
            proof {
                self.lemma_finite();
                lemma_room(self@);
            }
            let ghost before = slots@;
            let slot: u32 = self.install_handle_auto(handles[i]);
            slots.push(slot);
            proof {
                assert(slots@.drop_last() =~= before);
                self.lemma_finite();
            }
            i = i + 1;
        }
        slots
    }

    /// Drops the handles of all the slots that are in use.
    pub fn discard_handles(&mut self, slots: &Vec<u32>)
        requires
            old(self).wf(),
        ensures
            final(self).wf(),
            final(self)@ == without_slots(old(self)@, slots@),
    {
        let mut i: usize = 0;
        assert(self@ =~= without_slots(old(self)@, slots@.take(0)));
        while i < slots.len()
            invariant
                i <= slots@.len(),
                self.wf(),
                self@ == without_slots(old(self)@, slots@.take(i as int)),
            decreases slots@.len() - i,
        {
            let _ = self.close_handle(slots[i]);
            i = i + 1;
            proof {
                let earlier = slots@.take(i - 1);
                let now = slots@.take(i as int);
                assert(now.drop_last() =~= earlier);
                assert forall|slot: u64|
                    in_slots(now, slot) <==> in_slots(earlier, slot) || slot == slots@[i - 1] as u64 by {
                    if in_slots(earlier, slot) {
                        let j = choose|j: int|
                            0 <= j < earlier.len() && slot == #[trigger] earlier[j] as u64;
                        assert(now[j] as u64 == slot);
                    }
                    if slot == slots@[i - 1] as u64 {
                        assert(now[i - 1] as u64 == slot);
                    }
                    if in_slots(now, slot) {
                        let j = choose|j: int|
                            0 <= j < now.len() && slot == #[trigger] now[j] as u64;
                        if j < earlier.len() {
                            assert(earlier[j] as u64 == slot);
                        }
                    }
                }
                assert(self@ =~= without_slots(old(self)@, now));
            }
        }
        assert(slots@.take(i as int) =~= slots@);
    }

    pub fn new() -> (table: Self)
        ensures
            table.wf(),
            table@ == Map::<u64, Handle>::empty(),
    {
        HandleTable { entries: IdTable::new() }
    }

    /// The handle in a slot.
    pub fn get(&self, slot: u32) -> (handle: Option<Handle>)
        requires
            self.wf(),
        ensures
            handle == (if self@.dom().contains(slot as u64) {
                Some(self@[slot as u64])
            } else {
                None
            }),
    {
        match self.entries.get(slot as u64) {
            Some(handle) => Some(*handle),
            None => None,
        }
    }

    /// Puts a handle into a slot and hands back the one it replaces.
    pub fn install_handle(&mut self, slot: u32, handle: Handle) -> (previous: Option<Handle>)
        requires
            old(self).wf(),
        ensures
            final(self).wf(),
            final(self)@ == old(self)@.insert(slot as u64, handle),
            previous == (if old(self)@.dom().contains(slot as u64) {
                Some(old(self)@[slot as u64])
            } else {
                None
            }),
    {
        self.entries.insert(slot as u64, handle)
    }

    /// Puts a handle into the lowest free slot.
    pub fn install_handle_auto(&mut self, handle: Handle) -> (slot: u32)
        requires
            old(self).wf(),
            has_free_slot(old(self)@),
        ensures
            final(self).wf(),
            lowest_free(old(self)@, slot),
            final(self)@ == old(self)@.insert(slot as u64, handle),
    {
        let mut slot: u32 = 0;
        while self.entries.contains(slot as u64)
            invariant
                self.entries.wf(),
                *self == *old(self),
                has_free_slot(self@),
                forall|other: u32| other < slot ==> self@.dom().contains(#[trigger] (other as u64)),
            decreases u32::MAX - slot,
        {
            proof {
                let free = choose|free: u32| !self@.dom().contains(#[trigger] (free as u64));
                assert(free > slot);
            }
            slot = slot.saturating_add(1);
        }
        let _ = self.entries.insert(slot as u64, handle);
        slot
    }

    /// Drops the handle of a slot.
    pub fn close_handle(&mut self, slot: u32) -> (result: Result<(), ObjectError>)
        requires
            old(self).wf(),
        ensures
            final(self).wf(),
            final(self)@ == old(self)@.remove(slot as u64),
            result == (if old(self)@.dom().contains(slot as u64) {
                Ok::<(), ObjectError>(())
            } else {
                Err::<(), ObjectError>(ObjectError::ObjectNotFound)
            }),
    {
        match self.take_handle(slot) {
            Ok(_) => Ok(()),
            Err(error) => Err(error),
        }
    }

    /// Takes the handle of a slot out of the table.
    pub fn take_handle(&mut self, slot: u32) -> (result: Result<Handle, ObjectError>)
        requires
            old(self).wf(),
        ensures
            final(self).wf(),
            final(self)@ == old(self)@.remove(slot as u64),
            result == (if old(self)@.dom().contains(slot as u64) {
                Ok::<Handle, ObjectError>(old(self)@[slot as u64])
            } else {
                Err::<Handle, ObjectError>(ObjectError::ObjectNotFound)
            }),
    {
        match self.entries.remove(slot as u64) {
            Some(handle) => Ok(handle),
            None => Err(ObjectError::ObjectNotFound),
        }
    }

    /// What a request for a temporary reference to a slot leads to.
    pub open spec fn acquired(table: Map<u64, Handle>, slot: u32) -> Result<Handle, ObjectError> {
        if table.dom().contains(slot as u64) {
            table[slot as u64].acquired()
        } else {
            Err(ObjectError::ObjectNotFound)
        }
    }

    /// A temporary reference to the handle of a slot.
    pub fn acquire_handle(&self, slot: u32) -> (result: Result<Handle, ObjectError>)
        requires
            self.wf(),
        ensures
            result == Self::acquired(self@, slot),
    {
        match self.get(slot) {
            Some(handle) => handle.acquire_ref(),
            None => Err(ObjectError::ObjectNotFound),
        }
    }

    /// Clones the handle of a slot into the lowest free one.
    pub fn clone_handle(&mut self, slot: u32) -> (result: Result<u32, ObjectError>)
        requires
            old(self).wf(),
            has_free_slot(old(self)@),
        ensures
            final(self).wf(),
            match result {
                Ok(fresh) => {
                    &&& old(self)@.dom().contains(slot as u64)
                    &&& old(self)@[slot as u64].clone_refusal is None
                    &&& lowest_free(old(self)@, fresh)
                    &&& final(self)@ == old(self)@.insert(fresh as u64, old(self)@[slot as u64])
                },
                Err(error) => {
                    &&& final(self)@ == old(self)@
                    &&& if old(self)@.dom().contains(slot as u64) {
                        old(self)@[slot as u64].clone_refusal == Some(error)
                    } else {
                        error == ObjectError::ObjectNotFound
                    }
                },
            },
    {
        match self.get(slot) {
            None => Err(ObjectError::ObjectNotFound),
            Some(handle) => match handle.try_clone() {
                Err(error) => Err(error),
                Ok(copy) => Ok(self.install_handle_auto(copy)),
            },
        }
    }

    /// Whether some slot refers to the object.
    pub fn refers_to(&self, object: u64) -> (found: bool)
        requires
            self.wf(),
        ensures
            found <==> exists|slot: u64| #[trigger]
                self@.dom().contains(slot) && self@[slot].keyed() == Ok::<u64, ObjectError>(object),
    {
        proof {
            self.entries.lemma_order();
        }
        let mut i: usize = 0;
        while i < self.entries.len()
            invariant
                i <= self.entries.order().len(),
                self.entries.wf(),
                self@ == self.entries@,
                forall|j: int|
                    0 <= j < i ==> self@[#[trigger] self.entries.order()[j]].keyed() != Ok::<
                        u64,
                        ObjectError,
                    >(object),
            decreases self.entries.order().len() - i,
        {
            let refers = match self.entries.value_at(i).object_key() {
                Ok(key) => key == object,
                Err(_) => false,
            };
            if refers {
                proof {
                    self.entries.lemma_order();
                    assert(self.entries.order().contains(self.entries.order()[i as int]));
                }
                return true;
            }
            i = i + 1;
        }
        proof {
            self.entries.lemma_order();
            if exists|slot: u64| #[trigger]
                self@.dom().contains(slot) && self@[slot].keyed() == Ok::<u64, ObjectError>(object) {
                let slot = choose|slot: u64| #[trigger]
                    self@.dom().contains(slot) && self@[slot].keyed() == Ok::<u64, ObjectError>(object);
                assert(self.entries.order().contains(slot));
                let j = choose|j: int|
                    0 <= j < self.entries.order().len() && self.entries.order()[j] == slot;
                assert(self@[self.entries.order()[j]].keyed() != Ok::<u64, ObjectError>(object));
            }
        }
        false
    }
}

/// A refusal met on the way stays the result.
proof fn lemma_acquire_error(table: Map<u64, Handle>, slots: Seq<u32>, at: int)
    requires
        0 <= at < slots.len(),
        acquire_all(table, slots.take(at + 1)) is Err,
    ensures
        acquire_all(table, slots) == acquire_all(table, slots.take(at + 1)),
    decreases slots.len() - at,
{
    if at + 1 == slots.len() {
        assert(slots.take(at + 1) =~= slots);
    } else {
        assert(slots.take(at + 2).drop_last() =~= slots.take(at + 1));
        lemma_acquire_error(table, slots, at + 1);
    }
}

/// A handle that was installed can be taken back unchanged, and taking it
/// leaves the table as it was.
pub proof fn law_install_then_take(table: Map<u64, Handle>, slot: u32, handle: Handle)
    requires
        lowest_free(table, slot),
    ensures
        table.insert(slot as u64, handle)[slot as u64] == handle,
        table.insert(slot as u64, handle).remove(slot as u64) == table,
{
    assert(table.insert(slot as u64, handle).remove(slot as u64) =~= table);
}

/// Dropping the handles that were installed one after the other leaves the
/// table as it was.
pub proof fn law_install_then_discard(
    table: Map<u64, Handle>,
    handles: Seq<Handle>,
    slots: Seq<u32>,
)
    requires
        slots_in_turn(table, handles, slots),
    ensures
        without_slots(table_after(table, handles, slots), slots) == table,
{
    let after = table_after(table, handles, slots);
    lemma_table_after(table, handles, slots);
    assert(without_slots(after, slots) =~= table);
}

/// The slots were free, and nothing else in the table changes.
proof fn lemma_table_after(table: Map<u64, Handle>, handles: Seq<Handle>, slots: Seq<u32>)
    requires
        slots_in_turn(table, handles, slots),
    ensures
        forall|slot: u64|
            #![trigger in_slots(slots, slot)]
            in_slots(slots, slot) ==> !table.dom().contains(slot),
        forall|slot: u64|
            #![trigger table_after(table, handles, slots).dom().contains(slot)]
            table_after(table, handles, slots).dom().contains(slot) <==> table.dom().contains(slot)
                || in_slots(slots, slot),
        forall|slot: u64|
            #![trigger table_after(table, handles, slots)[slot]]
            !in_slots(slots, slot) ==> table_after(table, handles, slots)[slot] == table[slot],
    decreases slots.len(),
{
    if slots.len() > 0 {
        let rest = slots.drop_last();
        lemma_table_after(table, handles, rest);
        let after = table_after(table, handles, rest);
        assert forall|slot: u64|
            in_slots(slots, slot) <==> in_slots(rest, slot) || slot == slots.last() as u64 by {
            if in_slots(rest, slot) {
                let j = choose|j: int| 0 <= j < rest.len() && slot == #[trigger] rest[j] as u64;
                assert(slots[j] as u64 == slot);
            }
            if slot == slots.last() as u64 {
                assert(slots[slots.len() - 1] as u64 == slot);
            }
            if in_slots(slots, slot) {
                let j = choose|j: int| 0 <= j < slots.len() && slot == #[trigger] slots[j] as u64;
                if j < rest.len() {
                    assert(rest[j] as u64 == slot);
                }
            }
        }
        assert(!after.dom().contains(slots.last() as u64));
    }
}

/// A downgraded handle refers to the same object, and lacks the dropped rights
/// and those only.
pub proof fn law_downgrade_only_drops(handle: Handle, dropped: Capability, dropped_caps: u32)
    ensures
        ({
            let rest = handle.downgraded(dropped, dropped_caps);
            &&& rest.object == handle.object
            &&& handle.capabilities.includes(rest.capabilities)
            &&& rest.capabilities.send <==> handle.capabilities.send && !dropped.send
            &&& rest.capabilities.admin <==> handle.capabilities.admin && !dropped.admin
            &&& forall|right: Capability|
                handle.capabilities.includes(right) && !(dropped.read && right.read) && !(
                dropped.write && right.write) && !(dropped.execute && right.execute) && !(
                dropped.agent && right.agent) && !(dropped.admin && right.admin) && !(dropped.send
                    && right.send) ==> #[trigger] rest.capabilities.includes(right)
            &&& rest.interface_caps & dropped_caps == 0
            &&& rest.interface_caps | (handle.interface_caps & dropped_caps)
                == handle.interface_caps
            &&& handle.downgraded(dropped, dropped_caps).downgraded(dropped, dropped_caps) == rest
        }),
{
    let caps = handle.interface_caps;
    assert((caps & !dropped_caps) & dropped_caps == 0 && (caps & !dropped_caps) | (caps
        & dropped_caps) == caps && (caps & !dropped_caps) & !dropped_caps == caps & !dropped_caps)
        by (bit_vector);
}

/// A derived handle refers to the same object with the rights that were asked
/// for. The object may refuse.
pub proof fn law_derived_handle_has_the_asked_rights(
    handle: Handle,
    capabilities: Capability,
    interface_caps: u32,
)
    ensures
        handle.derived(capabilities, interface_caps) is Ok <==> handle.derive_refusal is None,
        handle.derived(capabilities, interface_caps) matches Ok(derived) ==> derived.object
            == handle.object && derived.capabilities == capabilities && derived.interface_caps
            == interface_caps,
{
}

/// Rights are ordered: two sets that hold each other are the same, and what is
/// in a part is in the whole.
pub proof fn law_rights_are_ordered(a: Capability, b: Capability, c: Capability)
    ensures
        a.includes(a),
        a.includes(b) && b.includes(a) ==> a == b,
        a.includes(b) && b.includes(c) ==> a.includes(c),
        a.includes(Capability::plain(false, false, false, false)),
        !Capability::plain(false, false, false, false).includes(a) || a == Capability::plain(
            false,
            false,
            false,
            false,
        ),
{
}

/// A handle without a slot of its own goes to the lowest number that no handle
/// has.
pub proof fn law_lowest_number_is_taken(table: Map<u64, Handle>, slot: u32, other: u32)
    requires
        lowest_free(table, slot),
        !table.contains_key(other as u64),
    ensures
        !table.contains_key(slot as u64),
        slot <= other,
{
    if other < slot {
        assert(table.dom().contains(other as u64));
    }
}

proof fn lemma_closing(table: Map<u64, Handle>, slots: Seq<u32>, count: int)
    requires
        0 <= count <= slots.len(),
        forall|i: int| 0 <= i < count ==> table.contains_key(#[trigger] slots[i] as u64),
        forall|i: int, j: int| 0 <= i < j < count ==> slots[i] != slots[j],
        count < slots.len() ==> !without_slots(table, slots.take(count)).contains_key(
            slots[count] as u64,
        ),
    ensures
        close_all(table, slots) == without_slots(table, slots.take(count)),
        closes_all(table, slots) <==> count == slots.len(),
    decreases count,
{
    let gone = without_slots(table, slots.take(count));
    if count == 0 {
        assert(gone =~= table);
    } else {
        let rest = table.remove(slots[0] as u64);
        let later = slots.skip(1);
        assert forall|i: int| 0 <= i < count - 1 implies rest.contains_key(
            #[trigger] later[i] as u64,
        ) by {
            assert(later[i] == slots[i + 1]);
        }
        let left = without_slots(rest, later.take(count - 1));
        assert forall|slot: u64| in_slots(slots.take(count), slot) <==> slot == slots[0] as u64
            || in_slots(later.take(count - 1), slot) by {
            if in_slots(slots.take(count), slot) {
                let j = choose|j: int|
                    0 <= j < count && slot == #[trigger] slots.take(count)[j] as u64;
                if j > 0 {
                    assert(later.take(count - 1)[j - 1] == slots[j]);
                }
            }
            assert(slots.take(count)[0] == slots[0]);
            if in_slots(later.take(count - 1), slot) {
                let j = choose|j: int|
                    0 <= j < count - 1 && slot == #[trigger] later.take(count - 1)[j] as u64;
                assert(slots.take(count)[j + 1] == later[j]);
            }
        }
        assert(left =~= gone);
        if count < slots.len() {
            assert(later[count - 1] == slots[count]);
        }
        lemma_closing(rest, later, count - 1);
    }
}

/// Slots are closed in order up to the first that holds no handle any more.
/// Every slot before it is empty afterwards, every other keeps its handle, and
/// the request succeeds where none is left over.
pub proof fn law_slots_are_closed_in_order(table: Map<u64, Handle>, slots: Seq<u32>, count: int)
    requires
        0 <= count <= slots.len(),
        forall|i: int| 0 <= i < count ==> table.contains_key(#[trigger] slots[i] as u64),
        forall|i: int, j: int| 0 <= i < j < count ==> slots[i] != slots[j],
        count < slots.len() ==> !table.contains_key(slots[count] as u64) || slots.take(
            count,
        ).contains(slots[count]),
    ensures
        closes_all(table, slots) <==> count == slots.len(),
        forall|i: int|
            0 <= i < count ==> !close_all(table, slots).contains_key(#[trigger] slots[i] as u64),
        forall|slot: u32|
            !slots.take(count).contains(slot) ==> (close_all(table, slots).contains_key(
                #[trigger] (slot as u64),
            ) <==> table.contains_key(slot as u64)),
        forall|slot: u64| #[trigger]
            close_all(table, slots).contains_key(slot) ==> table.contains_key(slot) && close_all(
                table,
                slots,
            )[slot] == table[slot],
{
    let part = slots.take(count);
    if count < slots.len() && part.contains(slots[count]) {
        let j = choose|j: int| 0 <= j < part.len() && part[j] == slots[count];
        assert(slots[count] as u64 == part[j] as u64);
    }
    lemma_closing(table, slots, count);
    assert forall|i: int| 0 <= i < count implies !close_all(table, slots).contains_key(
        #[trigger] slots[i] as u64,
    ) by {
        assert(part[i] == slots[i]);
    }
    assert forall|slot: u32| !part.contains(slot) implies (close_all(table, slots).contains_key(
        #[trigger] (slot as u64),
    ) <==> table.contains_key(slot as u64)) by {
        if in_slots(part, slot as u64) {
            let j = choose|j: int| 0 <= j < part.len() && slot as u64 == #[trigger] part[j] as u64;
            assert(part[j] == slot);
        }
    }
}

} // verus!
