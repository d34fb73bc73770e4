//! Objects that a process makes for itself: ports, memory objects and address
//! regions.

use vstd::prelude::*;

use super::lifecycle::Process;
use super::manager::{ProcessVmError, VmError};
use super::stack::{KernelStackSegment, PROCESS_KERNEL_STACK_REGION_SIZE};
use super::vm::{
    flatten, guard_error, page_failure, RegionPurpose, VSpaceError, VmarEntry, VmoPagePurpose,
};
use crate::error::ObjectOrUnderlyingError;
use crate::ipc::cap::{
    P_BIND_RECV, P_LISTEN, P_PUBLISH, P_QUERY_STATE, P_RECV_MSG, P_SEND_MSG, P_SUBSCRIBE,
    P_UNSUBSCRIBE,
};
use crate::ipc::port::PortBindError;
use crate::object::{Capability, Handle, ObjectError};

verus! {

/// Kinds of anonymous ports.
#[derive(Debug, Clone, Copy, PartialEq, Eq, Structural)]
pub enum PortObject {
    Unicast,
    Broadcast,
    Bus,
    Reply,
}

impl PortObject {
    /// Rights of the handle that the maker of a port gets.
    pub open spec fn rights(self) -> Capability {
        Capability::plain(true, !(self is Reply), true, true)
    }

    pub fn capability(self) -> (capability: Capability)
        ensures
            capability == self.rights(),
    {
        Capability {
            send: true,
            read: true,
            write: !matches!(self, PortObject::Reply),
            execute: true,
            agent: false,
            admin: false,
        }
    }

    /// Interface capabilities of the handle that the maker of a port gets.
    pub open spec fn caps(self) -> u32 {
        match self {
            PortObject::Unicast => P_SEND_MSG | P_RECV_MSG | P_BIND_RECV | P_QUERY_STATE,
            PortObject::Broadcast => P_SEND_MSG | P_RECV_MSG | P_SUBSCRIBE | P_UNSUBSCRIBE
                | P_QUERY_STATE,
            PortObject::Bus => P_PUBLISH | P_LISTEN | P_SUBSCRIBE | P_UNSUBSCRIBE | P_QUERY_STATE,
            PortObject::Reply => P_SEND_MSG | P_RECV_MSG | P_QUERY_STATE,
        }
    }

    pub fn interface_caps(self) -> (caps: u32)
        ensures
            caps == self.caps(),
    {
        match self {
            PortObject::Unicast => P_SEND_MSG | P_RECV_MSG | P_BIND_RECV | P_QUERY_STATE,
            PortObject::Broadcast => P_SEND_MSG | P_RECV_MSG | P_SUBSCRIBE | P_UNSUBSCRIBE
                | P_QUERY_STATE,
            PortObject::Bus => P_PUBLISH | P_LISTEN | P_SUBSCRIBE | P_UNSUBSCRIBE | P_QUERY_STATE,
            PortObject::Reply => P_SEND_MSG | P_RECV_MSG | P_QUERY_STATE,
        }
    }
}

/// Interface capabilities of memory objects and address regions.
#[derive(Debug, Clone, Copy, PartialEq, Eq, Structural)]
pub struct VmAbi {
    pub vmo_caps: u32,
    pub vmar_caps: u32,
}

/// Kinds of objects of the memory subsystem.
#[derive(Debug, Clone, Copy, PartialEq, Eq, Structural)]
pub enum MemoryObject {
    Vmo,
    Vmar,
}

impl MemoryObject {
    pub open spec fn caps(self, abi: VmAbi) -> u32 {
        match self {
            MemoryObject::Vmo => abi.vmo_caps,
            MemoryObject::Vmar => abi.vmar_caps,
        }
    }

    /// Interface capabilities of the handle that the maker of the object gets.
    pub fn interface_caps(self, abi: &VmAbi) -> (caps: u32)
        ensures
            caps == self.caps(*abi),
    {
        match self {
            MemoryObject::Vmo => abi.vmo_caps,
            MemoryObject::Vmar => abi.vmar_caps,
        }
    }
}

/// What making an anonymous object does to the process: its owner is kept, if it
/// was made.
pub open spec fn makes_object(
    before: Process,
    after: Process,
    owner: Handle,
    made: Result<Handle, ObjectError>,
) -> bool {
    &&& after.same_but_objects(before)
    &&& if made is Ok {
        after.anon_objects@ == before.anon_objects@.insert(owner.object, owner)
    } else {
        after == before
    }
}

impl Process {
    /// Makes an anonymous port and gives the maker a handle with the rights of its
    /// kind. A unicast port is bound to the process first; `bound` is what that
    /// came to.
    pub fn create_port(
        &mut self,
        port: PortObject,
        bound: Result<(), PortBindError>,
        owner: Handle,
    ) -> (result: Result<Handle, ObjectError>)
        requires
            old(self).wf(),
        ensures
            final(self).wf(),
            if port is Unicast && bound is Err {
                &&& result == Err::<Handle, ObjectError>(ObjectError::InvalidArgument)
                &&& *final(self) == *old(self)
            } else {
                &&& result == Self::made(owner, port.rights(), port.caps())
                &&& makes_object(*old(self), *final(self), owner, result)
                &&& result matches Ok(public) ==> public.object == owner.object
                    && public.capabilities == port.rights() && public.interface_caps == port.caps()
            },
    {
        if matches!(port, PortObject::Unicast) && bound.is_err() {
            return Err(ObjectError::InvalidArgument);
        }
        self.create_anonymous_object(owner, port.capability(), port.interface_caps())
    }

    /// Makes a memory object or an address region that was created below the
    /// handle of a slot, and gives the maker a handle that may read, write and
    /// execute.
    pub fn create_child_object(
        &mut self,
        created: Result<Result<(), ProcessVmError>, ObjectError>,
        object: MemoryObject,
        abi: &VmAbi,
        owner: Handle,
    ) -> (result: Result<Handle, ProcessVmError>)
        requires
            old(self).wf(),
        ensures
            final(self).wf(),
            match created {
                Err(error) => {
                    &&& result == Err::<Handle, ProcessVmError>(ProcessVmError::Object(error))
                    &&& *final(self) == *old(self)
                },
                Ok(Err(error)) => {
                    &&& result == Err::<Handle, ProcessVmError>(error)
                    &&& *final(self) == *old(self)
                },
                Ok(Ok(_)) => {
                    let made = Self::made(
                        owner,
                        Capability::plain(true, true, true, false),
                        object.caps(*abi),
                    );
                    &&& makes_object(*old(self), *final(self), owner, made)
                    &&& result == (match made {
                        Ok(handle) => Ok::<Handle, ProcessVmError>(handle),
                        Err(error) => Err::<Handle, ProcessVmError>(ProcessVmError::Object(error)),
                    })
                },
            },
    {
        match flatten(created) {
            Err(error) => Err(error),
            Ok(()) => match self.create_anonymous_object(
                owner,
                memory_rights(),
                object.interface_caps(abi),
            ) {
                Ok(handle) => Ok(handle),
                Err(error) => Err(ObjectOrUnderlyingError::Object(error)),
            },
        }
    }

    /// What making a handle to a fixed user segment comes to.
    pub open spec fn segment_made(
        segment: Result<(), ProcessVmError>,
        owner: Handle,
        abi: VmAbi,
    ) -> Result<Handle, ObjectError> {
        match segment {
            Err(ObjectOrUnderlyingError::Object(error)) => Err(error),
            Err(ObjectOrUnderlyingError::Underlying(_)) => Err(ObjectError::InvalidArgument),
            Ok(_) => Self::made(owner, Capability::plain(true, true, false, false), abi.vmar_caps),
        }
    }

    /// Makes a handle to a fixed user segment that may read and write. `segment`
    /// is what looking the segment up came to.
    pub fn derive_segment_vmar_handle(
        &mut self,
        segment: Result<(), ProcessVmError>,
        owner: Handle,
        abi: &VmAbi,
    ) -> (result: Result<Handle, ObjectError>)
        requires
            old(self).wf(),
        ensures
            final(self).wf(),
            result == Self::segment_made(segment, owner, *abi),
            makes_object(*old(self), *final(self), owner, result),
    {
        match segment {
            Err(ObjectOrUnderlyingError::Object(error)) => Err(error),
            Err(ObjectOrUnderlyingError::Underlying(_)) => Err(ObjectError::InvalidArgument),
            Ok(()) => self.create_anonymous_object(owner, segment_rights(), abi.vmar_caps),
        }
    }

    /// Gives the process its address space: `root` is its page table, `vmar` the
    /// owner handle of its root region, `vspace` what laying the space out came
    /// to. A process whose kernel stacks have no place gets none.
    pub fn bootstrap_vm_objects(
        &mut self,
        stacks: &KernelStackSegment,
        vspace: Result<(), VSpaceError>,
        vmar: Handle,
        root: usize,
    ) -> (result: Result<usize, ProcessVmError>)
        ensures
            ({
                let placed = old(self).pid >= 1 && stacks.region_start(old(self).pid as int)
                    + PROCESS_KERNEL_STACK_REGION_SIZE <= stacks.end;
                if !placed {
                    &&& result == Err::<usize, ProcessVmError>(
                        ProcessVmError::Underlying(VmError::InvalidRange),
                    )
                    &&& *final(self) == *old(self)
                } else {
                    match vspace {
                        Err(error) => {
                            &&& result == Err::<usize, ProcessVmError>(
                                ProcessVmError::Underlying(error.vm()),
                            )
                            &&& *final(self) == *old(self)
                        },
                        Ok(_) => {
                            &&& result == Ok::<usize, ProcessVmError>(root)
                            &&& *final(self) == (Process {
                                root_vmar: Some(vmar),
                                address_space_root: Some(root),
                                ..*old(self)
                            })
                        },
                    }
                }
            }),
    {
        if stacks.kernel_stack_root_range(self.pid).is_none() {
            return Err(ObjectOrUnderlyingError::Underlying(VmError::InvalidRange));
        }
        if let Err(error) = vspace {
            return Err(error.process_vm_error());
        }
        self.root_vmar = Some(vmar);
        self.address_space_root = Some(root);
        Ok(root)
    }

    /// What deriving a handle to the root address region comes to.
    pub open spec fn root_derived(&self, abi: VmAbi) -> Result<Handle, ObjectError> {
        match self.root_vmar {
            Some(root) => root.derived(
                Capability::plain(true, false, false, false),
                abi.vmar_caps,
            ),
            None => Err(ObjectError::ObjectNotFound),
        }
    }

    /// A handle to the root address region that may only read.
    pub fn derive_root_vmar_handle(&self, abi: &VmAbi) -> (result: Result<Handle, ObjectError>)
        ensures
            result == self.root_derived(*abi),
    {
        match &self.root_vmar {
            Some(root) => root.derive_handle(read_rights(), abi.vmar_caps),
            None => Err(ObjectError::ObjectNotFound),
        }
    }

    /// Destroys the address region behind a slot, if its handle and the region
    /// itself allow it.
    pub fn destroy_vmar(
        &mut self,
        slot: u32,
        allowed: Result<Result<(), ObjectError>, ObjectError>,
    ) -> (result: Result<(), ObjectError>)
        requires
            old(self).wf(),
        ensures
            final(self).wf(),
            if !old(self).handles@.dom().contains(slot as u64) {
                &&& result == Err::<(), ObjectError>(ObjectError::ObjectNotFound)
                &&& *final(self) == *old(self)
            } else {
                match allowed {
                    Ok(Ok(_)) => Self::destroy_effect(*old(self), *final(self), slot, result),
                    Ok(Err(error)) => {
                        &&& result == Err::<(), ObjectError>(error)
                        &&& *final(self) == *old(self)
                    },
                    Err(error) => {
                        &&& result == Err::<(), ObjectError>(error)
                        &&& *final(self) == *old(self)
                    },
                }
            },
    {
        if self.handles.get(slot).is_none() {
            return Err(ObjectError::ObjectNotFound);
        }
        match allowed {
            Err(error) => Err(error),
            Ok(Err(error)) => Err(error),
            Ok(Ok(())) => self.destroy_anonymous_object(slot),
        }
    }
}

/// Rights of the handle that the maker of a memory object or an address region
/// gets.
pub fn memory_rights() -> (capability: Capability)
    ensures
        capability == Capability::plain(true, true, true, false),
{
    Capability { read: true, write: true, execute: true, agent: false, admin: false, send: false }
}

/// Rights of a handle to a fixed user segment.
pub fn segment_rights() -> (capability: Capability)
    ensures
        capability == Capability::plain(true, true, false, false),
{
    Capability { read: true, write: true, execute: false, agent: false, admin: false, send: false }
}

/// The right to read, and no other.
pub fn read_rights() -> (capability: Capability)
    ensures
        capability == Capability::plain(true, false, false, false),
{
    Capability { read: true, write: false, execute: false, agent: false, admin: false, send: false }
}

/// Step of unmapping an entry of an address region.
pub enum UnmapStep {
    /// Clear the pages of the entry that was taken out of the region.
    Pages(VmarEntry),
    Done(Result<VmarEntry, ProcessVmError>),
}

impl UnmapStep {
    /// Goes on after the entry was to be taken out of the region. Where it could
    /// not be, its pages stay.
    pub fn vmar_unmap(removed: Result<Result<VmarEntry, ProcessVmError>, ObjectError>) -> (step:
        Self)
        ensures
            step == (match removed {
                Ok(Ok(entry)) => UnmapStep::Pages(entry),
                Ok(Err(error)) => UnmapStep::Done(Err(error)),
                Err(error) => UnmapStep::Done(Err(ProcessVmError::Object(error))),
            }),
    {
        match flatten(removed) {
            Ok(entry) => UnmapStep::Pages(entry),
            Err(error) => UnmapStep::Done(Err(error)),
        }
    }

    /// Goes on after the pages of the entry were cleared.
    pub fn finish_unmap(self, pages: Result<(), ObjectError>) -> (step: Self)
        ensures
            step == (match self {
                UnmapStep::Pages(entry) => UnmapStep::Done(
                    match pages {
                        Ok(_) => Ok(entry),
                        Err(error) => Err(
                            guard_error(error, VmError::InvalidArgument, VmError::NotMapped),
                        ),
                    },
                ),
                UnmapStep::Done(outcome) => UnmapStep::Done(outcome),
            }),
    {
        match self {
            UnmapStep::Done(outcome) => UnmapStep::Done(outcome),
            UnmapStep::Pages(entry) => match page_failure(pages) {
                Ok(()) => UnmapStep::Done(Ok(entry)),
                Err(error) => UnmapStep::Done(Err(error)),
            },
        }
    }
}

/// Operations on a range of a memory object.
#[derive(Debug, Clone, Copy, PartialEq, Eq, Structural)]
pub enum VmoOpRangeOperation {
    Commit,
    Decommit,
    Zero,
    QueryCommitted,
}

/// How an operation on a range is to be done.
#[derive(Debug, Clone, Copy, PartialEq, Eq, Structural)]
pub struct VmoRangePlan {
    /// Whether the memory object is written, or only read.
    pub writes: bool,
    /// What new pages are for, where the operation brings any.
    pub purpose: Option<VmoPagePurpose>,
}

impl VmoOpRangeOperation {
    /// Only a query reads, and only a commit brings pages: those of user memory.
    pub fn plan(self) -> (plan: VmoRangePlan)
        ensures
            plan == (VmoRangePlan {
                writes: !(self is QueryCommitted),
                purpose: if self is Commit {
                    Some(VmoPagePurpose::Anonymous)
                } else {
                    None
                },
            }),
    {
        match self {
            VmoOpRangeOperation::Commit => VmoRangePlan {
                writes: true,
                purpose: Some(RegionPurpose::User.vmo_page_purpose()),
            },
            VmoOpRangeOperation::Decommit | VmoOpRangeOperation::Zero => VmoRangePlan {
                writes: true,
                purpose: None,
            },
            VmoOpRangeOperation::QueryCommitted => VmoRangePlan { writes: false, purpose: None },
        }
    }
}

/// What an operation on a range comes to: the bytes that it went over.
pub fn vmo_op_range(done: Result<Result<usize, VSpaceError>, ObjectError>) -> (result: Result<
    usize,
    ProcessVmError,
>)
    ensures
        result == (match done {
            Ok(Ok(bytes)) => Ok::<usize, ProcessVmError>(bytes),
            Ok(Err(error)) => Err::<usize, ProcessVmError>(ProcessVmError::Underlying(error.vm())),
            Err(error) => Err::<usize, ProcessVmError>(ProcessVmError::Object(error)),
        }),
{
    match done {
        Ok(Ok(bytes)) => Ok(bytes),
        Ok(Err(error)) => Err(error.process_vm_error()),
        Err(error) => Err(ObjectOrUnderlyingError::Object(error)),
    }
}

/// The owner handle of an object that was made stays with the process; what is
/// handed out takes no slot by itself.
pub proof fn law_made_objects_keep_their_owner(
    before: Process,
    after: Process,
    owner: Handle,
    public: Handle,
)
    requires
        owner.key_refusal is None,
        makes_object(before, after, owner, Ok(public)),
    ensures
        after.anon_objects@.dom().contains(owner.object),
        after.anon_objects@[owner.object] == owner,
        after.handles == before.handles,
{
}

} // verus!
