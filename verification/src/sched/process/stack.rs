//! Stacks of a process: where they may lie, and how they are put in place.

use vstd::prelude::*;

use super::vm::PAGE_SIZE;
use crate::memory::range::VmRange;
use crate::object::ObjectError;
use crate::sched::stack::{
    CpuFallbackStack, GuardedStackLayout, DEFAULT_STACK_PAGES, FALLBACK_SLOT_SIZE,
};

verus! {

/// Bytes for the kernel stacks of one process.
pub const PROCESS_KERNEL_STACK_REGION_SIZE: usize = 0x400_0000;

/// Segment of the kernel stacks.
#[derive(Debug, Clone, Copy, PartialEq, Eq, Structural)]
pub struct KernelStackSegment {
    pub start: usize,
    pub end: usize,
    /// Number of CPUs, whose fallback stacks come first.
    pub cpu_count: usize,
}

impl KernelStackSegment {
    /// First address for the kernel stacks of a process.
    pub open spec fn region_start(&self, pid: int) -> int {
        self.start + self.cpu_count * FALLBACK_SLOT_SIZE + (pid - 1)
            * PROCESS_KERNEL_STACK_REGION_SIZE
    }

    /// The range for the kernel stacks of a process: behind the fallback stacks
    /// and those of the processes before it, if it still lies in the segment.
    pub fn kernel_stack_root_range(&self, pid: u64) -> (range: Option<VmRange>)
        ensures
            range is Some <==> pid >= 1 && self.region_start(pid as int)
                + PROCESS_KERNEL_STACK_REGION_SIZE <= self.end,
            range matches Some(range) ==> range.first() == self.region_start(pid as int)
                && range.limit() == self.region_start(pid as int)
                + PROCESS_KERNEL_STACK_REGION_SIZE,
    {
        let reserved_pages: usize = match (DEFAULT_STACK_PAGES + 1).checked_mul(self.cpu_count) {
            Some(pages) => pages,
            None => {
                return None;
            },
        };
        let reserved_bytes: usize = match reserved_pages.checked_mul(0x1000) {
            Some(bytes) => bytes,
            None => {
                return None;
            },
        };
        if pid == 0 || pid - 1 > usize::MAX as u64 {
            return None;
        }
        let process_index: usize = (pid - 1) as usize;
        let region_base: usize = match process_index.checked_mul(PROCESS_KERNEL_STACK_REGION_SIZE) {
            Some(base) => base,
            None => {
                return None;
            },
        };
        let behind: usize = match self.start.checked_add(reserved_bytes) {
            Some(behind) => behind,
            None => {
                return None;
            },
        };
        let start: usize = match behind.checked_add(region_base) {
            Some(start) => start,
            None => {
                return None;
            },
        };
        let end: usize = match start.checked_add(PROCESS_KERNEL_STACK_REGION_SIZE) {
            Some(end) => end,
            None => {
                return None;
            },
        };
        if end > self.end {
            return None;
        }
        VmRange::new(start, end)
    }
}

/// The kernel stacks of two processes are apart.
pub proof fn law_kernel_stacks_are_apart(
    segment: KernelStackSegment,
    first: u64,
    second: u64,
    address: int,
)
    requires
        first != second,
        segment.region_start(first as int) <= address < segment.region_start(first as int)
            + PROCESS_KERNEL_STACK_REGION_SIZE,
    ensures
        !(segment.region_start(second as int) <= address < segment.region_start(second as int)
            + PROCESS_KERNEL_STACK_REGION_SIZE),
{
}

/// The kernel stacks of a process are apart from the fallback stack of every
/// CPU.
pub proof fn law_kernel_stacks_avoid_fallback(
    segment: KernelStackSegment,
    pid: u64,
    cpu_id: usize,
    address: int,
)
    requires
        pid >= 1,
        cpu_id < segment.cpu_count,
        segment.region_start(pid as int) <= address,
    ensures
        (CpuFallbackStack { segment_start: segment.start }).slot_base(cpu_id as int)
            + FALLBACK_SLOT_SIZE <= address,
{
}

/// Bytes of a stack with its guard page, and without it.
#[derive(Debug, Clone, Copy, PartialEq, Eq, Structural)]
pub struct StackSizes {
    pub mapped: usize,
    pub reserved: usize,
}

/// Sizes of a stack of `mapped_pages` pages.
pub fn stack_sizes(mapped_pages: usize) -> (result: Result<StackSizes, ObjectError>)
    ensures
        result == (if (mapped_pages + 1) * PAGE_SIZE <= usize::MAX {
            Ok::<StackSizes, ObjectError>(
                (StackSizes {
                    mapped: (mapped_pages * PAGE_SIZE) as usize,
                    reserved: ((mapped_pages + 1) * PAGE_SIZE) as usize,
                }),
            )
        } else {
            Err::<StackSizes, ObjectError>(ObjectError::InvalidArgument)
        }),
{
    let mapped: usize = match mapped_pages.checked_mul(0x1000) {
        Some(mapped) => mapped,
        None => {
            return Err(ObjectError::InvalidArgument);
        },
    };
    match mapped.checked_add(0x1000) {
        Some(reserved) => Ok(StackSizes { mapped, reserved }),
        None => Err(ObjectError::InvalidArgument),
    }
}

/// Layout of a stack in the slot that was reserved for it.
pub fn allocate_stack_slot(slot: Option<VmRange>, mapped: usize) -> (result: Result<
    GuardedStackLayout,
    ObjectError,
>)
    ensures
        match result {
            Ok(layout) => slot matches Some(slot) && layout.lies_at(
                slot.first() as int,
                mapped as int,
            ),
            Err(error) => error == ObjectError::InvalidArgument && (slot is None
                || slot->Some_0.first() + PAGE_SIZE + mapped > usize::MAX),
        },
{
    match slot {
        None => Err(ObjectError::InvalidArgument),
        Some(slot) => match GuardedStackLayout::from_low_base(slot.start(), mapped) {
            Some(layout) => Ok(layout),
            None => Err(ObjectError::InvalidArgument),
        },
    }
}

/// Step of putting a stack in place.
#[derive(Debug, Clone, Copy, PartialEq)]
pub enum StackStep {
    /// Map the stack's object in its slot.
    Apply,
    /// Change the page tables.
    Pages,
    /// Take the mapping in the slot back.
    Undo(ObjectError),
    Done(Result<(), ObjectError>),
}

impl StackStep {
    /// What a step leads to. A slot that refuses is a bad argument; a failure
    /// of the page tables is undone first.
    pub open spec fn after(self, result: Result<(), ObjectError>) -> StackStep {
        match (self, result) {
            (StackStep::Apply, Ok(_)) => StackStep::Pages,
            (StackStep::Apply, Err(_)) => StackStep::Done(Err(ObjectError::InvalidArgument)),
            (StackStep::Pages, Ok(_)) => StackStep::Done(Ok(())),
            (StackStep::Pages, Err(error)) => StackStep::Undo(error),
            (StackStep::Undo(error), _) => StackStep::Done(Err(error)),
            (StackStep::Done(outcome), _) => StackStep::Done(outcome),
        }
    }

    /// Goes on after the step was taken.
    pub fn install_stack_mapping(self, result: Result<(), ObjectError>) -> (step: Self)
        ensures
            step == self.after(result),
    {
        match self {
            StackStep::Apply => match result {
                Ok(()) => StackStep::Pages,
                Err(_) => StackStep::Done(Err(ObjectError::InvalidArgument)),
            },
            StackStep::Pages => match result {
                Ok(()) => StackStep::Done(Ok(())),
                Err(error) => StackStep::Undo(error),
            },
            StackStep::Undo(error) => StackStep::Done(Err(error)),
            StackStep::Done(outcome) => StackStep::Done(outcome),
        }
    }
}

/// Step of taking a stack away.
#[derive(Debug, Clone, Copy, PartialEq)]
pub enum UnstackStep {
    /// Clear the page tables.
    Pages,
    /// Take the mapping out of the slot.
    Mapping,
    /// Give the slot back.
    Slot,
    Done(Result<(), ObjectError>),
}

impl UnstackStep {
    /// What a step leads to. A failure ends it: no later step is taken. A mapping
    /// or a slot that is not there is a missing object.
    pub open spec fn after(self, result: Result<(), ObjectError>) -> UnstackStep {
        match (self, result) {
            (UnstackStep::Pages, Ok(_)) => UnstackStep::Mapping,
            (UnstackStep::Pages, Err(error)) => UnstackStep::Done(Err(error)),
            (UnstackStep::Mapping, Ok(_)) => UnstackStep::Slot,
            (UnstackStep::Slot, Ok(_)) => UnstackStep::Done(Ok(())),
            (UnstackStep::Mapping, Err(_)) => UnstackStep::Done(Err(ObjectError::ObjectNotFound)),
            (UnstackStep::Slot, Err(_)) => UnstackStep::Done(Err(ObjectError::ObjectNotFound)),
            (UnstackStep::Done(outcome), _) => UnstackStep::Done(outcome),
        }
    }

    /// Goes on after the step was taken.
    pub fn uninstall_stack_mapping(self, result: Result<(), ObjectError>) -> (step: Self)
        ensures
            step == self.after(result),
    {
        match self {
            UnstackStep::Pages => match result {
                Ok(()) => UnstackStep::Mapping,
                Err(error) => UnstackStep::Done(Err(error)),
            },
            UnstackStep::Mapping => match result {
                Ok(()) => UnstackStep::Slot,
                Err(_) => UnstackStep::Done(Err(ObjectError::ObjectNotFound)),
            },
            UnstackStep::Slot => match result {
                Ok(()) => UnstackStep::Done(Ok(())),
                Err(_) => UnstackStep::Done(Err(ObjectError::ObjectNotFound)),
            },
            UnstackStep::Done(outcome) => UnstackStep::Done(outcome),
        }
    }
}

/// Taking a stack away ends well only if all three steps did.
pub proof fn law_stack_goes_in_order(
    pages: Result<(), ObjectError>,
    mapping: Result<(), ObjectError>,
    slot: Result<(), ObjectError>,
)
    ensures
        UnstackStep::Pages.after(pages) is Mapping <==> pages is Ok,
        UnstackStep::Pages.after(pages).after(mapping) is Slot <==> pages is Ok && mapping is Ok,
        UnstackStep::Pages.after(pages).after(mapping).after(slot) == UnstackStep::Done(
            match pages {
                Err(error) => Err(error),
                Ok(_) => if mapping is Err || slot is Err {
                    Err(ObjectError::ObjectNotFound)
                } else {
                    Ok(())
                },
            },
        ),
{
}

/// Stack of user code: its slot, its object and the range that is mapped.
#[derive(Debug, Clone, Copy, PartialEq, Eq, Structural)]
pub struct UserStackAllocation {
    pub slot: VmRange,
    /// Key of the memory object.
    pub vmo: u64,
    pub mapped_range: VmRange,
}

impl UserStackAllocation {
    pub fn new(slot: VmRange, vmo: u64, mapped_range: VmRange) -> (stack: Self)
        ensures
            stack == (UserStackAllocation { slot, vmo, mapped_range }),
    {
        UserStackAllocation { slot, vmo, mapped_range }
    }

    pub fn slot(&self) -> (slot: VmRange)
        ensures
            slot == self.slot,
    {
        self.slot
    }

    pub fn vmo(&self) -> (vmo: u64)
        ensures
            vmo == self.vmo,
    {
        self.vmo
    }

    pub fn mapped_range(&self) -> (range: VmRange)
        ensures
            range == self.mapped_range,
    {
        self.mapped_range
    }

    /// The address just above the stack.
    pub fn top(&self) -> (top: usize)
        ensures
            top == self.mapped_range.limit(),
    {
        self.mapped_range.end()
    }
}

/// Kernel stack of a task.
#[derive(Debug, Clone, Copy, PartialEq, Eq, Structural)]
pub struct KernelStack {
    pub slot: VmRange,
    /// Key of the memory object.
    pub vmo: u64,
    pub mapped_range: VmRange,
}

impl KernelStack {
    pub fn new(slot: VmRange, vmo: u64, mapped_range: VmRange) -> (stack: Self)
        ensures
            stack == (KernelStack { slot, vmo, mapped_range }),
    {
        KernelStack { slot, vmo, mapped_range }
    }

    pub fn vmo(&self) -> (vmo: u64)
        ensures
            vmo == self.vmo,
    {
        self.vmo
    }

    pub fn slot(&self) -> (slot: VmRange)
        ensures
            slot == self.slot,
    {
        self.slot
    }

    /// The address just above the stack.
    pub fn top(&self) -> (top: usize)
        ensures
            top == self.mapped_range.limit(),
    {
        self.mapped_range.end()
    }

    pub fn mapped_range(&self) -> (range: VmRange)
        ensures
            range == self.mapped_range,
    {
        self.mapped_range
    }

    pub fn contains_stack_pointer(&self, rsp: usize) -> (inside: bool)
        ensures
            inside == self.mapped_range.covers(rsp as int),
    {
        self.mapped_range.contains(rsp)
    }

    /// Stack pointer on entry: one return address below the top, where the
    /// caller writes a zero.
    pub fn prepare_kernel_entry_stack(&self) -> (rsp: usize)
        requires
            self.mapped_range.limit() >= crate::sched::stack::RETURN_ADDRESS_SIZE,
        ensures
            rsp == self.mapped_range.limit() - crate::sched::stack::RETURN_ADDRESS_SIZE,
    {
        self.top() - crate::sched::stack::RETURN_ADDRESS_SIZE
    }
}

} // verus!
