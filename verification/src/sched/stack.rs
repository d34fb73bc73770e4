//! Per-CPU fallback stacks: where each one lies and what belongs to it.

use vstd::prelude::*;

use crate::memory::range::VmRange;

verus! {

/// Bytes of one stack page.
pub const PAGE_SIZE: usize = 0x1000;

/// Pages of a fallback stack.
pub const DEFAULT_STACK_PAGES: usize = 4;

/// Pages of a task's kernel stack.
pub const TASK_KERNEL_STACK_PAGES: usize = 8;

/// Unmapped pages below a stack.
pub const GUARD_PAGES: usize = 1;

/// Bytes from one fallback stack slot to the next.
pub const FALLBACK_SLOT_SIZE: usize = 0x5000;

/// Bytes of a return address.
pub const RETURN_ADDRESS_SIZE: usize = 8;

/// A stack with a guard range directly below it.
#[derive(Debug, Clone, Copy, PartialEq, Eq, Structural)]
pub struct GuardedStackLayout {
    pub guard: VmRange,
    pub stack: VmRange,
}

impl GuardedStackLayout {
    /// Whether this is a stack of `size` bytes above a guard page at `base`.
    pub open spec fn lies_at(&self, base: int, size: int) -> bool {
        &&& self.guard.first() == base
        &&& self.guard.limit() == base + PAGE_SIZE
        &&& self.stack.first() == base + PAGE_SIZE
        &&& self.stack.limit() == base + PAGE_SIZE + size
    }

    /// Lays out a stack of `size` bytes above a guard page at `base`, if the
    /// end fits into the address space.
    pub fn from_low_base(base: usize, size: usize) -> (layout: Option<Self>)
        ensures
            layout is Some <==> base + PAGE_SIZE + size <= usize::MAX,
            layout matches Some(layout) ==> layout.lies_at(base as int, size as int),
    {
        let start: usize = match base.checked_add(PAGE_SIZE) {
            Some(start) => start,
            None => {
                return None;
            },
        };
        let end: usize = match start.checked_add(size) {
            Some(end) => end,
            None => {
                return None;
            },
        };
        match (VmRange::new(base, start), VmRange::new(start, end)) {
            (Some(guard), Some(stack)) => Some(GuardedStackLayout { guard, stack }),
            _ => None,
        }
    }

    /// The address just above the stack.
    pub fn top(&self) -> (top: usize)
        ensures
            top == self.stack.limit(),
    {
        self.stack.end()
    }
}

/// The fallback stacks of all CPUs, side by side from `segment_start` on.
#[derive(Debug, Clone, Copy, PartialEq, Eq, Structural)]
pub struct CpuFallbackStack {
    pub segment_start: usize,
}

impl CpuFallbackStack {
    /// First address of a CPU's slot.
    pub open spec fn slot_base(&self, cpu_id: int) -> int {
        self.segment_start + cpu_id * FALLBACK_SLOT_SIZE
    }

    /// Whether a CPU's slot fits into the address space.
    pub open spec fn fits(&self, cpu_id: int) -> bool {
        self.slot_base(cpu_id) + FALLBACK_SLOT_SIZE <= usize::MAX
    }

    /// The slot of one CPU.
    pub fn layout(&self, cpu_id: usize) -> (layout: Option<GuardedStackLayout>)
        ensures
            layout is Some <==> self.fits(cpu_id as int),
            layout matches Some(layout) ==> layout.lies_at(
                self.slot_base(cpu_id as int),
                DEFAULT_STACK_PAGES * PAGE_SIZE,
            ),
    {
        let reserved: usize = match DEFAULT_STACK_PAGES.checked_add(GUARD_PAGES) {
            Some(reserved) => reserved,
            None => {
                return None;
            },
        };
        let slot_size: usize = match reserved.checked_mul(PAGE_SIZE) {
            Some(slot_size) => slot_size,
            None => {
                return None;
            },
        };
        let offset: usize = match cpu_id.checked_mul(slot_size) {
            Some(offset) => offset,
            None => {
                return None;
            },
        };
        let base: usize = match self.segment_start.checked_add(offset) {
            Some(base) => base,
            None => {
                return None;
            },
        };
        GuardedStackLayout::from_low_base(base, DEFAULT_STACK_PAGES * PAGE_SIZE)
    }

    /// The pages that back a CPU's stack, lowest first.
    pub fn install(&self, cpu_id: usize, backing_base: usize) -> (plan: Option<Vec<(usize, usize)>>)
        requires
            backing_base + DEFAULT_STACK_PAGES * PAGE_SIZE <= usize::MAX,
        ensures
            plan is Some <==> self.fits(cpu_id as int),
            plan matches Some(pages) ==> pages@.len() == DEFAULT_STACK_PAGES && forall|i: int|
                0 <= i < DEFAULT_STACK_PAGES ==> #[trigger] pages@[i] == (
                    (self.slot_base(cpu_id as int) + PAGE_SIZE + i * PAGE_SIZE) as usize,
                    (backing_base + i * PAGE_SIZE) as usize,
                ),
    {
        let layout = match self.layout(cpu_id) {
            Some(layout) => layout,
            None => {
                return None;
            },
        };
        let mut pages: Vec<(usize, usize)> = Vec::new();
        let mut page: usize = 0;
        while page < DEFAULT_STACK_PAGES
            invariant
                page <= DEFAULT_STACK_PAGES,
                pages@.len() == page,
                self.fits(cpu_id as int),
                layout.lies_at(self.slot_base(cpu_id as int), DEFAULT_STACK_PAGES * PAGE_SIZE),
                backing_base + DEFAULT_STACK_PAGES * PAGE_SIZE <= usize::MAX,
                forall|i: int|
                    0 <= i < page ==> #[trigger] pages@[i] == (
                        (self.slot_base(cpu_id as int) + PAGE_SIZE + i * PAGE_SIZE) as usize,
                        (backing_base + i * PAGE_SIZE) as usize,
                    ),
            decreases DEFAULT_STACK_PAGES - page,
        {
            pages.push((layout.stack.start() + page * PAGE_SIZE, backing_base + page * PAGE_SIZE));
            page = page + 1;
        }
        Some(pages)
    }

    /// The address just above a CPU's stack.
    pub fn top(&self, cpu_id: usize) -> (top: usize)
        requires
            self.fits(cpu_id as int),
        ensures
            top == self.slot_base(cpu_id as int) + FALLBACK_SLOT_SIZE,
    {
        match self.layout(cpu_id) {
            Some(layout) => layout.top(),
            None => 0,
        }
    }

    /// Stack pointer on entry: one return address below the top, where the
    /// caller writes a zero.
    pub fn boot_entry_stack_pointer(&self, cpu_id: usize) -> (rsp: usize)
        requires
            self.fits(cpu_id as int),
        ensures
            rsp == self.slot_base(cpu_id as int) + FALLBACK_SLOT_SIZE - RETURN_ADDRESS_SIZE,
    {
        self.top(cpu_id) - RETURN_ADDRESS_SIZE
    }

    /// Whether an address lies in a CPU's stack or its guard page.
    pub fn contains(&self, cpu_id: usize, rsp: usize) -> (inside: bool)
        requires
            self.fits(cpu_id as int),
        ensures
            inside == (self.slot_base(cpu_id as int) <= rsp < self.slot_base(cpu_id as int)
                + FALLBACK_SLOT_SIZE),
    {
        match self.layout(cpu_id) {
            Some(layout) => layout.guard.contains(rsp) || layout.stack.contains(rsp),
            None => false,
        }
    }
}

/// No address belongs to the stacks of two CPUs.
pub proof fn law_fallback_stacks_are_apart(
    stacks: CpuFallbackStack,
    first: usize,
    second: usize,
    address: usize,
)
    requires
        first != second,
        stacks.slot_base(first as int) <= address < stacks.slot_base(first as int)
            + FALLBACK_SLOT_SIZE,
    ensures
        !(stacks.slot_base(second as int) <= address < stacks.slot_base(second as int)
            + FALLBACK_SLOT_SIZE),
{
}

/// A CPU that starts at its entry stack pointer runs on its own fallback stack.
pub proof fn law_entry_is_on_own_stack(stacks: CpuFallbackStack, cpu_id: usize)
    requires
        stacks.fits(cpu_id as int),
    ensures
        ({
            let rsp = stacks.slot_base(cpu_id as int) + FALLBACK_SLOT_SIZE - RETURN_ADDRESS_SIZE;
            stacks.slot_base(cpu_id as int) + PAGE_SIZE <= rsp < stacks.slot_base(cpu_id as int)
                + FALLBACK_SLOT_SIZE
        }),
{
}

} // verus!
