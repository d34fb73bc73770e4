//! The memory subsystem: which allocator serves a request.

use super::early::{AllocLayout, Arena, EarlyAllocator, FreeRegion, LOW_MEM_THRESHOLD, alloc_effect, regions_of_map, total_len, with_range};
use super::frame::{AllocationZone, PhysRange, frame_ceil};
use super::slab::{
    MemoryRange, PAGE_SIZE, SlubRuntime, class_index, is_class_of, no_page, page_ceil, sections_of,
    whole_pages,
};
use super::zones::{BlockOrders, FrameAllocator, FrameZone, LLFreeAllocator, ZoneFeed};
use crate::numeric::{exact_log2, is_next_power, next_power_of_two};
use vstd::arithmetic::power2::pow2;
use vstd::prelude::*;

verus! {

/// Largest size and alignment that a small object can have.
pub const SMALL_ALLOC_LIMIT: usize = 2048;

/// How far memory management has been set up.
#[derive(Debug, Clone, Copy, PartialEq, Eq, Structural)]
pub enum AllocPhase {
    Uninit,
    BootHeap,
    BootstrapSlub,
    PerCpuSlub,
}

/// Who serves a request for memory.
#[derive(Debug, Clone, Copy, PartialEq, Eq, Structural)]
pub enum AllocRoute {
    /// Nothing has to be allocated.
    Dangling,
    /// Nobody.
    Refused,
    BootHeap,
    /// The small objects of a class, of the current processor or of the kernel.
    Small { class: usize, per_cpu: bool },
    /// Whole pages.
    Pages { count: usize, align: usize },
}

/// Who takes memory back.
#[derive(Debug, Clone, Copy, PartialEq, Eq, Structural)]
pub enum FreeRoute {
    Nobody,
    BootHeap,
    Small { per_cpu: bool },
    Pages { count: usize },
}

/// What a request for pages comes to.
#[derive(Debug, Clone, Copy, PartialEq, Eq, Structural)]
pub enum PageAnswer {
    Refused,
    /// Physical address in memory of the boot heap.
    BootHeap(usize),
    /// The frame allocator has to be asked.
    Frames { addr: Option<u64>, zone: FrameZone, count: usize },
}

/// Who takes pages back.
#[derive(Debug, Clone, Copy, PartialEq, Eq, Structural)]
pub enum PageReturn {
    Nobody,
    BootHeap,
    Frames(usize),
}

/// Whole pages that hold a number of bytes.
pub open spec fn pages_for(bytes: int) -> int {
    (bytes + 0xfff) / 0x1000
}

fn page_count(bytes: usize) -> (pages: usize)
    ensures
        pages == pages_for(bytes as int),
{
    if bytes % PAGE_SIZE == 0 {
        bytes / PAGE_SIZE
    } else {
        bytes / PAGE_SIZE + 1
    }
}

pub open spec fn at_least(value: usize, least: usize) -> usize {
    if value < least {
        least
    } else {
        value
    }
}

/// Whether a block of this many pages holds the pages and is aligned: both
/// numbers are rounded up to powers of two, and the larger one counts.
pub open spec fn is_page_block(num_pages: usize, alignment: usize, count: usize) -> bool {
    exists|pages: int, align: int| #[trigger]
        is_next_power(at_least(num_pages, 1) as int, pages) && #[trigger] is_next_power(
            pages_for(at_least(alignment, PAGE_SIZE) as int),
            align,
        ) && count == if pages > align {
            pages
        } else {
            align
        }
}

/// Pages of a block that holds a number of pages at an alignment, where such a
/// block can be.
pub fn aligned_page_count(num_pages: usize, alignment: usize) -> (count: Option<usize>)
    ensures
        match count {
            Some(count) => is_page_block(num_pages, alignment, count),
            None => forall|e: nat|
                at_least(num_pages, 1) <= #[trigger] pow2(e) && pages_for(
                    at_least(alignment, PAGE_SIZE) as int,
                ) <= pow2(e) ==> pow2(e) > usize::MAX,
        },
{
    let pages: usize = match next_power_of_two(if num_pages < 1 {
        1
    } else {
        num_pages
    }) {
        Some(pages) => pages,
        None => {
            return None;
        },
    };
    let align: usize = match next_power_of_two(
        page_count(
            if alignment < PAGE_SIZE {
                PAGE_SIZE
            } else {
                alignment
            },
        ),
    ) {
        Some(align) => align,
        None => {
            return None;
        },
    };
    let count: usize = if pages > align {
        pages
    } else {
        align
    };
    proof {
        assert(is_next_power(at_least(num_pages, 1) as int, pages as int));
        assert(is_next_power(
            pages_for(at_least(alignment, PAGE_SIZE) as int),
            align as int,
        ));
        assert(is_page_block(num_pages, alignment, count));
    }
    Some(count)
}

/// Whether the heap can be asked for a size at an alignment at all.
pub open spec fn layout_valid(size: int, align: usize) -> bool {
    &&& exists|e: nat| align == #[trigger] pow2(e)
    &&& size + align - 1 <= isize::MAX
}

fn check_layout(size: usize, align: usize) -> (valid: bool)
    ensures
        valid == layout_valid(size as int, align),
{
    let limit: usize = isize::MAX as usize;
    match exact_log2(align) {
        None => false,
        Some(exponent) => {
            proof {
                vstd::arithmetic::power2::lemma_pow2_pos(exponent as nat);
                assert(align == pow2(exponent as nat));
            }
            align - 1 <= limit && size <= limit - (align - 1)
        },
    }
}

/// Memory management of the kernel.
pub struct MemorySubsystem {
    phase: AllocPhase,
    early_total_bytes: usize,
    boot_heap: EarlyAllocator,
    frames_ready: bool,
}

/// Contents of the memory subsystem.
#[verifier::ext_equal]
pub struct MemoryView {
    pub phase: AllocPhase,
    pub early_total_bytes: usize,
    pub boot_heap: Seq<FreeRegion>,
    pub frames_ready: bool,
}

impl View for MemorySubsystem {
    type V = MemoryView;

    closed spec fn view(&self) -> MemoryView {
        MemoryView {
            phase: self.phase,
            early_total_bytes: self.early_total_bytes,
            boot_heap: self.boot_heap@,
            frames_ready: self.frames_ready,
        }
    }
}

/// Who serves a request for memory in a phase.
pub open spec fn route(phase: AllocPhase, layout: AllocLayout, route: AllocRoute) -> bool {
    if layout.size == 0 {
        route == AllocRoute::Dangling
    } else {
        match phase {
            AllocPhase::Uninit => route == AllocRoute::Refused,
            AllocPhase::BootHeap => route == AllocRoute::BootHeap,
            _ => if is_small(layout) {
                exists|class: usize|
                    #![trigger is_class_of(layout, Some(class))]
                    is_class_of(layout, Some(class)) && route == (AllocRoute::Small {
                        class,
                        per_cpu: phase == AllocPhase::PerCpuSlub,
                    })
            } else {
                route == AllocRoute::Pages {
                    count: pages_for(layout.size as int) as usize,
                    align: layout.align,
                }
            },
        }
    }
}

/// Who takes memory back in a phase.
pub open spec fn free_route(phase: AllocPhase, layout: AllocLayout) -> FreeRoute {
    match phase {
        AllocPhase::Uninit => FreeRoute::Nobody,
        AllocPhase::BootHeap => FreeRoute::BootHeap,
        _ => if is_small(layout) {
            FreeRoute::Small { per_cpu: phase == AllocPhase::PerCpuSlub }
        } else {
            FreeRoute::Pages { count: pages_for(layout.size as int) as usize }
        },
    }
}

pub open spec fn is_small(layout: AllocLayout) -> bool {
    layout.size <= SMALL_ALLOC_LIMIT && layout.align <= SMALL_ALLOC_LIMIT
}

/// A request that is small is one that the object classes can serve.
pub proof fn law_small_layouts_have_a_class(layout: AllocLayout)
    ensures
        is_small(layout) <==> !is_class_of(layout, None),
{
}

/// What a request for pages does.
pub open spec fn pages_effect(
    before: MemoryView,
    after: MemoryView,
    addr: Option<u64>,
    zone: Option<FrameZone>,
    num_pages: usize,
    alignment: usize,
    answer: PageAnswer,
) -> bool {
    if num_pages == 0 {
        after == before && answer == PageAnswer::Refused
    } else if before.frames_ready {
        &&& after == before
        &&& match answer {
            PageAnswer::Frames { addr: asked, zone: wanted, count } => {
                &&& asked == addr
                &&& wanted == match zone {
                    Some(zone) => zone,
                    None => FrameZone::Normal,
                }
                &&& is_page_block(num_pages, alignment, count)
            },
            PageAnswer::Refused => forall|e: nat|
                num_pages <= #[trigger] pow2(e) && pages_for(
                    at_least(alignment, PAGE_SIZE) as int,
                ) <= pow2(e) ==> pow2(e) > usize::MAX,
            PageAnswer::BootHeap(_) => false,
        }
    } else {
        let align = at_least(alignment, PAGE_SIZE);
        if addr is Some || !layout_valid(num_pages * 0x1000, align) {
            after == before && answer == PageAnswer::Refused
        } else {
            let layout = AllocLayout { size: (num_pages * 0x1000) as usize, align };
            &&& after == MemoryView { boot_heap: after.boot_heap, ..before }
            &&& match answer {
                PageAnswer::BootHeap(phys) => alloc_effect(
                    before.boot_heap,
                    layout,
                    after.boot_heap,
                    Some(phys),
                ),
                PageAnswer::Refused => alloc_effect(
                    before.boot_heap,
                    layout,
                    after.boot_heap,
                    None,
                ),
                PageAnswer::Frames { .. } => false,
            }
        }
    }
}

impl MemorySubsystem {
    pub closed spec fn wf(&self) -> bool {
        self.boot_heap.wf()
    }

    pub fn new() -> (memory: Self)
        ensures
            memory.wf(),
            memory@ == (MemoryView {
                phase: AllocPhase::Uninit,
                early_total_bytes: 0,
                boot_heap: Seq::empty(),
                frames_ready: false,
            }),
    {
        MemorySubsystem {
            phase: AllocPhase::Uninit,
            early_total_bytes: 0,
            boot_heap: EarlyAllocator::new(),
            frames_ready: false,
        }
    }

    /// Sets up the boot heap from the usable ranges of the memory map. Without
    /// any usable memory the phase does not change.
    pub fn init_boot_heap(&mut self, map: &Vec<Arena>) -> (total: Option<usize>)
        requires
            old(self).wf(),
            forall|i: int| 0 <= i < map@.len() ==> (#[trigger] map@[i]).start <= map@[i].end,
            ({
                let regions = regions_of_map(old(self)@.boot_heap, map@, map@.len() as int);
                total_len(regions, regions.len() as int) <= usize::MAX
            }),
        ensures
            final(self).wf(),
            ({
                let regions = regions_of_map(old(self)@.boot_heap, map@, map@.len() as int);
                let bytes = total_len(regions, regions.len() as int);
                if regions.len() == 0 {
                    &&& total is None
                    &&& final(self)@ == MemoryView { boot_heap: regions, ..old(self)@ }
                } else {
                    &&& total == Some(bytes as usize)
                    &&& final(self)@ == MemoryView {
                        phase: AllocPhase::BootHeap,
                        early_total_bytes: bytes as usize,
                        boot_heap: regions,
                        ..old(self)@
                    }
                }
            }),
    {
        self.boot_heap.init_from_map(map);
        if self.boot_heap.is_empty() {
            return None;
        }
        let total: usize = self.boot_heap.free_bytes();
        self.phase = AllocPhase::BootHeap;
        self.early_total_bytes = total;
        Some(total)
    }

    /// Notes that the frame allocator has taken over the pages.
    pub fn set_frames_ready(&mut self)
        requires
            old(self).wf(),
        ensures
            final(self).wf(),
            final(self)@ == (MemoryView { frames_ready: true, ..old(self)@ }),
    {
        self.frames_ready = true;
    }

    /// Goes on to the next phase. The boot heap is left only once the frame
    /// allocator is there, and there is nothing to go on from before that.
    pub fn enter_next_phase(&mut self)
        requires
            old(self).wf(),
            old(self)@.phase != AllocPhase::Uninit,
            old(self)@.phase == AllocPhase::BootHeap ==> old(self)@.frames_ready,
        ensures
            final(self).wf(),
            final(self)@ == (MemoryView {
                phase: if old(self)@.phase == AllocPhase::BootHeap {
                    AllocPhase::BootstrapSlub
                } else {
                    AllocPhase::PerCpuSlub
                },
                ..old(self)@
            }),
    {
        match self.phase {
            AllocPhase::BootHeap => {
                self.phase = AllocPhase::BootstrapSlub;
            },
            _ => {
                self.phase = AllocPhase::PerCpuSlub;
            },
        }
    }

    pub fn phase(&self) -> (phase: AllocPhase)
        ensures
            phase == self@.phase,
    {
        self.phase
    }

    /// Decides who serves a request for memory.
    pub fn alloc_global(&self, layout: AllocLayout) -> (answer: AllocRoute)
        ensures
            route(self@.phase, layout, answer),
    {
        if layout.size == 0 {
            return AllocRoute::Dangling;
        }
        match self.phase {
            AllocPhase::Uninit => AllocRoute::Refused,
            AllocPhase::BootHeap => AllocRoute::BootHeap,
            AllocPhase::BootstrapSlub => Self::alloc_runtime(layout, false),
            AllocPhase::PerCpuSlub => Self::alloc_runtime(layout, true),
        }
    }

    fn alloc_runtime(layout: AllocLayout, per_cpu: bool) -> (answer: AllocRoute)
        requires
            layout.size > 0,
        ensures
            route(
                if per_cpu {
                    AllocPhase::PerCpuSlub
                } else {
                    AllocPhase::BootstrapSlub
                },
                layout,
                answer,
            ),
    {
        if Self::is_small_layout(layout) {
            match class_index(layout) {
                Some(class) => {
                    assert(is_class_of(layout, Some(class)));
                    return AllocRoute::Small { class, per_cpu };
                },
                None => {
                    return AllocRoute::Refused;
                },
            }
        }
        AllocRoute::Pages { count: page_count(layout.size), align: layout.align }
    }

    /// Decides who takes memory back.
    pub fn dealloc_global(&self, layout: AllocLayout) -> (answer: FreeRoute)
        ensures
            answer == free_route(self@.phase, layout),
    {
        match self.phase {
            AllocPhase::Uninit => FreeRoute::Nobody,
            AllocPhase::BootHeap => FreeRoute::BootHeap,
            AllocPhase::BootstrapSlub => Self::dealloc_runtime(layout, false),
            AllocPhase::PerCpuSlub => Self::dealloc_runtime(layout, true),
        }
    }

    fn dealloc_runtime(layout: AllocLayout, per_cpu: bool) -> (answer: FreeRoute)
        ensures
            answer == free_route(
                if per_cpu {
                    AllocPhase::PerCpuSlub
                } else {
                    AllocPhase::BootstrapSlub
                },
                layout,
            ),
    {
        if Self::is_small_layout(layout) {
            return FreeRoute::Small { per_cpu };
        }
        FreeRoute::Pages { count: page_count(layout.size) }
    }

    pub fn is_small_layout(layout: AllocLayout) -> (small: bool)
        ensures
            small == is_small(layout),
    {
        layout.size <= SMALL_ALLOC_LIMIT && layout.align <= SMALL_ALLOC_LIMIT
    }

    /// Takes memory out of the boot heap.
    pub fn boot_heap_alloc(&mut self, layout: AllocLayout) -> (phys: Option<usize>)
        requires
            old(self).wf(),
        ensures
            final(self).wf(),
            final(self)@ == (MemoryView { boot_heap: final(self)@.boot_heap, ..old(self)@ }),
            alloc_effect(old(self)@.boot_heap, layout, final(self)@.boot_heap, phys),
    {
        self.boot_heap.allocate(layout)
    }

    /// Gives memory back to the boot heap.
    pub fn boot_heap_dealloc(&mut self, phys: usize, layout: AllocLayout)
        requires
            old(self).wf(),
            phys + at_least(layout.size, 1) <= usize::MAX,
        ensures
            final(self).wf(),
            final(self)@ == (MemoryView {
                boot_heap: with_range(
                    old(self)@.boot_heap,
                    phys as int,
                    at_least(layout.size, 1) as int,
                ),
                ..old(self)@
            }),
    {
        let size: usize = if layout.size < 1 {
            1
        } else {
            layout.size
        };
        self.boot_heap.add_region(phys, size);
    }

    /// Decides on a request for pages, at an address, in a zone or anywhere.
    pub fn alloc_pages_with_zone(
        &mut self,
        addr: Option<u64>,
        prefer_zone: Option<FrameZone>,
        num_pages: usize,
        alignment: usize,
    ) -> (answer: PageAnswer)
        requires
            old(self).wf(),
            !old(self)@.frames_ready ==> num_pages * 0x1000 <= usize::MAX,
        ensures
            final(self).wf(),
            pages_effect(
                old(self)@,
                final(self)@,
                addr,
                prefer_zone,
                num_pages,
                alignment,
                answer,
            ),
    {
        if num_pages == 0 {
            return PageAnswer::Refused;
        }
        if self.frames_ready {
            let zone = match prefer_zone {
                Some(zone) => zone,
                None => FrameZone::Normal,
            };
            return match aligned_page_count(num_pages, alignment) {
                Some(count) => PageAnswer::Frames { addr, zone, count },
                None => PageAnswer::Refused,
            };
        }
        if addr.is_some() {
            return PageAnswer::Refused;
        }
        let size: usize = num_pages * PAGE_SIZE;
        let align: usize = if alignment < PAGE_SIZE {
            PAGE_SIZE
        } else {
            alignment
        };
        if !check_layout(size, align) {
            return PageAnswer::Refused;
        }
        match self.boot_heap_alloc(AllocLayout { size, align }) {
            Some(phys) => PageAnswer::BootHeap(phys),
            None => PageAnswer::Refused,
        }
    }

    /// Takes pages back: the frame allocator gets them once it is there, and the
    /// boot heap before that. `phys` is their physical address, where they have
    /// one.
    pub fn dealloc_pages(&mut self, phys: Option<usize>, num_pages: usize) -> (answer: PageReturn)
        requires
            old(self).wf(),
            !old(self)@.frames_ready ==> num_pages * 0x1000 <= usize::MAX,
            !old(self)@.frames_ready ==> (phys matches Some(start) ==> start + num_pages * 0x1000
                <= usize::MAX),
        ensures
            final(self).wf(),
            if num_pages == 0 {
                answer == PageReturn::Nobody && final(self)@ == old(self)@
            } else if old(self)@.frames_ready {
                answer == PageReturn::Frames(num_pages) && final(self)@ == old(self)@
            } else {
                match phys {
                    Some(start) if layout_valid(num_pages * 0x1000, PAGE_SIZE) => {
                        &&& answer == PageReturn::BootHeap
                        &&& final(self)@ == MemoryView {
                            boot_heap: with_range(
                                old(self)@.boot_heap,
                                start as int,
                                num_pages * 0x1000,
                            ),
                            ..old(self)@
                        }
                    },
                    _ => answer == PageReturn::Nobody && final(self)@ == old(self)@,
                }
            },
    {
        if num_pages == 0 {
            return PageReturn::Nobody;
        }
        if self.frames_ready {
            return PageReturn::Frames(num_pages);
        }
        let size: usize = num_pages * PAGE_SIZE;
        if !check_layout(size, PAGE_SIZE) {
            return PageReturn::Nobody;
        }
        match phys {
            Some(start) => {
                self.boot_heap_dealloc(start, AllocLayout { size, align: PAGE_SIZE });
                PageReturn::BootHeap
            },
            None => PageReturn::Nobody,
        }
    }

    pub open spec fn used_before_frames(view: MemoryView) -> int {
        let free = total_len(view.boot_heap, view.boot_heap.len() as int);
        if view.early_total_bytes <= free {
            0
        } else {
            pages_for(view.early_total_bytes - free)
        }
    }

    /// Pages of the boot heap in use.
    pub fn used_boot_frames(&self) -> (frames: usize)
        requires
            self.wf(),
            total_len(self@.boot_heap, self@.boot_heap.len() as int) <= usize::MAX,
        ensures
            frames == Self::used_before_frames(self@),
    {
        let free: usize = self.boot_heap.free_bytes();
        if self.early_total_bytes <= free {
            return 0;
        }
        page_count(self.early_total_bytes - free)
    }

    /// Pages that the boot heap began with.
    pub fn total_boot_frames(&self) -> (frames: usize)
        ensures
            frames == pages_for(self@.early_total_bytes as int),
    {
        page_count(self.early_total_bytes)
    }
}

impl MemorySubsystem {
    /// Decides on a request for pages anywhere.
    pub fn alloc_pages(&mut self, num_pages: usize, alignment: usize) -> (answer: PageAnswer)
        requires
            old(self).wf(),
            !old(self)@.frames_ready ==> num_pages * 0x1000 <= usize::MAX,
        ensures
            final(self).wf(),
            pages_effect(old(self)@, final(self)@, None, None, num_pages, alignment, answer),
    {
        self.alloc_pages_with_zone(None, None, num_pages, alignment)
    }

    /// Decides on a request for pages in a zone.
    pub fn alloc_pages_in_zone(&mut self, num_pages: usize, alignment: usize, zone: FrameZone) -> (
    answer: PageAnswer)
        requires
            old(self).wf(),
            !old(self)@.frames_ready ==> num_pages * 0x1000 <= usize::MAX,
        ensures
            final(self).wf(),
            pages_effect(old(self)@, final(self)@, None, Some(zone), num_pages, alignment, answer),
    {
        self.alloc_pages_with_zone(None, Some(zone), num_pages, alignment)
    }

    /// Decides on a request for pages at an address.
    pub fn alloc_pages_at(
        &mut self,
        phys_addr: u64,
        num_pages: usize,
        alignment: usize,
        zone: FrameZone,
    ) -> (answer: PageAnswer)
        requires
            old(self).wf(),
            !old(self)@.frames_ready ==> num_pages * 0x1000 <= usize::MAX,
        ensures
            final(self).wf(),
            pages_effect(
                old(self)@,
                final(self)@,
                Some(phys_addr),
                Some(zone),
                num_pages,
                alignment,
                answer,
            ),
    {
        self.alloc_pages_with_zone(Some(phys_addr), Some(zone), num_pages, alignment)
    }

    /// Pages in use. `frames` is what the frame allocator counts, once it is
    /// there.
    pub fn used_frames(&self, frames: Option<usize>) -> (used: usize)
        requires
            self.wf(),
            total_len(self@.boot_heap, self@.boot_heap.len() as int) <= usize::MAX,
        ensures
            used == (match frames {
                Some(used) => used as int,
                None => Self::used_before_frames(self@),
            }),
    {
        match frames {
            Some(used) => used,
            None => self.used_boot_frames(),
        }
    }

    /// Pages in all. `frames` is what the frame allocator counts, once it is
    /// there.
    pub fn total_frames(&self, frames: Option<usize>) -> (total: usize)
        ensures
            total == (match frames {
                Some(total) => total as int,
                None => pages_for(self@.early_total_bytes as int),
            }),
    {
        match frames {
            Some(total) => total,
            None => self.total_boot_frames(),
        }
    }
}

/// Decides on a request for pages anywhere.
pub fn alloc_pages(memory: &mut MemorySubsystem, num_pages: usize, alignment: usize) -> (answer:
    PageAnswer)
    requires
        old(memory).wf(),
        !old(memory)@.frames_ready ==> num_pages * 0x1000 <= usize::MAX,
    ensures
        final(memory).wf(),
        pages_effect(old(memory)@, final(memory)@, None, None, num_pages, alignment, answer),
{
    memory.alloc_pages(num_pages, alignment)
}

/// The ranges that the frame allocator takes over: what is left of the boot
/// heap, and then the low memory that the boot heap never had.
pub open spec fn heap_range(region: FreeRegion) -> MemoryRange {
    MemoryRange {
        start: region.start,
        end: (if region.limit() > usize::MAX {
            usize::MAX as int
        } else {
            region.limit()
        }) as usize,
    }
}

/// Usable low memory of the first arenas.
pub open spec fn low_ranges(map: Seq<Arena>, count: int) -> Seq<MemoryRange>
    decreases count,
{
    if count <= 0 {
        Seq::empty()
    } else {
        let before = low_ranges(map, count - 1);
        let arena = map[count - 1];
        let low_end = if arena.end < LOW_MEM_THRESHOLD {
            arena.end
        } else {
            LOW_MEM_THRESHOLD
        };
        if arena.usable && arena.start < low_end {
            before.push(MemoryRange { start: arena.start, end: low_end })
        } else {
            before
        }
    }
}

pub open spec fn usable_ranges(regions: Seq<FreeRegion>, map: Seq<Arena>) -> Seq<MemoryRange> {
    regions.map_values(|region: FreeRegion| heap_range(region)) + low_ranges(
        map,
        map.len() as int,
    )
}

/// Bytes of the first ranges in whole pages, each range for itself.
pub open spec fn range_pages(ranges: Seq<MemoryRange>, count: int) -> int
    decreases count,
{
    if count <= 0 {
        0
    } else {
        range_pages(ranges, count - 1) + (ranges[count - 1].end - ranges[count - 1].start) / 0x1000
    }
}

impl MemorySubsystem {
    /// The ranges that the frame allocator takes over.
    pub fn boot_usable_ranges(&self, map: &Vec<Arena>) -> (ranges: Vec<MemoryRange>)
        requires
            self.wf(),
        ensures
            ranges@ == usable_ranges(self@.boot_heap, map@),
    {
        let mut ranges: Vec<MemoryRange> = Vec::new();
        let mut walk = self.boot_heap.iter_regions();
        let ghost regions = self.boot_heap@;
        let ghost heap = regions.map_values(|region: FreeRegion| heap_range(region));
        assert(regions.skip(0) =~= regions);
        let mut done: bool = false;
        while !done
            invariant
                walk.wf(),
                heap == regions.map_values(|region: FreeRegion| heap_range(region)),
                ranges@.len() <= regions.len(),
                walk.rest() == regions.skip(ranges@.len() as int),
                ranges@ == heap.take(ranges@.len() as int),
                done ==> ranges@.len() == regions.len(),
            decreases regions.len() - ranges@.len() + if done { 0int } else { 1 },
        {
            match walk.next() {
                Some((start, size)) => {
                    let ghost at = ranges@.len() as int;
                    assert(regions.skip(at)[0] == regions[at]);
                    let end: usize = start.saturating_add(size);
                    ranges.push(MemoryRange { start, end });
                    assert(regions.skip(at).skip(1) =~= regions.skip(at + 1));
                    assert(ranges@ =~= heap.take(at + 1));
                },
                None => {
                    done = true;
                },
            }
        }
        assert(heap.take(ranges@.len() as int) =~= heap);
        let mut i: usize = 0;
        assert(ranges@ =~= heap + low_ranges(map@, 0));
        while i < map.len()
            invariant
                i <= map@.len(),
                ranges@ == heap + low_ranges(map@, i as int),
            decreases map@.len() - i,
        {
            let arena = map[i];
            let low_end: usize = if arena.end < LOW_MEM_THRESHOLD {
                arena.end
            } else {
                LOW_MEM_THRESHOLD
            };
            if arena.usable && arena.start < low_end {
                ranges.push(MemoryRange { start: arena.start, end: low_end });
            }
            i = i + 1;
            assert(ranges@ =~= heap + low_ranges(map@, i as int));
        }
        ranges
    }
}

/// Number of ranges, and pages in them, for which state has to be reserved.
pub fn boot_usable_range_stats(ranges: &Vec<MemoryRange>) -> (stats: (usize, usize))
    requires
        forall|i: int| 0 <= i < ranges@.len() ==> (#[trigger] ranges@[i]).start <= ranges@[i].end,
        range_pages(ranges@, ranges@.len() as int) <= usize::MAX,
    ensures
        stats.0 == ranges@.len(),
        stats.1 == range_pages(ranges@, ranges@.len() as int),
{
    let mut pages: usize = 0;
    let mut i: usize = 0;
    while i < ranges.len()
        invariant
            i <= ranges@.len(),
            forall|j: int|
                0 <= j < ranges@.len() ==> (#[trigger] ranges@[j]).start <= ranges@[j].end,
            range_pages(ranges@, ranges@.len() as int) <= usize::MAX,
            pages == range_pages(ranges@, i as int),
        decreases ranges@.len() - i,
    {
        proof {
            lemma_range_pages_grow(ranges@, i + 1, ranges@.len() as int);
        }
        let range = ranges[i];
        pages = pages + (range.end - range.start) / PAGE_SIZE;
        i = i + 1;
    }
    (ranges.len(), pages)
}

proof fn lemma_range_pages_grow(ranges: Seq<MemoryRange>, a: int, b: int)
    requires
        0 <= a <= b <= ranges.len(),
        forall|j: int| 0 <= j < ranges.len() ==> (#[trigger] ranges[j]).start <= ranges[j].end,
    ensures
        range_pages(ranges, a) <= range_pages(ranges, b),
    decreases b,
{
    if a < b {
        assert(ranges[b - 1].start <= ranges[b - 1].end);
        lemma_range_pages_grow(ranges, a, b - 1);
    }
}

/// The end of the usable physical memory.
pub open spec fn top_of(map: Seq<Arena>, count: int) -> usize
    decreases count,
{
    if count <= 0 {
        0
    } else {
        let before = top_of(map, count - 1);
        if map[count - 1].usable && map[count - 1].end > before {
            map[count - 1].end
        } else {
            before
        }
    }
}

/// Finds the end of the usable physical memory.
pub fn max_phys_addr(map: &Vec<Arena>) -> (top: usize)
    ensures
        top == top_of(map@, map@.len() as int),
{
    let mut top: usize = 0;
    let mut i: usize = 0;
    while i < map.len()
        invariant
            i <= map@.len(),
            top == top_of(map@, i as int),
        decreases map@.len() - i,
    {
        if map[i].usable && map[i].end > top {
            top = map[i].end;
        }
        i = i + 1;
    }
    top
}

/// The ranges as ranges of physical memory.
pub open spec fn phys_ranges(ranges: Seq<MemoryRange>) -> Seq<PhysRange> {
    ranges.map_values(
        |range: MemoryRange| PhysRange { start: range.start as u64, end: range.end as u64 },
    )
}

fn to_phys_ranges(ranges: &Vec<MemoryRange>) -> (list: Vec<PhysRange>)
    ensures
        list@ == phys_ranges(ranges@),
{
    let mut list: Vec<PhysRange> = Vec::new();
    let mut i: usize = 0;
    while i < ranges.len()
        invariant
            i <= ranges@.len(),
            list@ == phys_ranges(ranges@).take(i as int),
        decreases ranges@.len() - i,
    {
        let range = ranges[i];
        list.push(PhysRange { start: range.start as u64, end: range.end as u64 });
        assert(list@ =~= phys_ranges(ranges@).take(i + 1));
        i = i + 1;
    }
    assert(list@ =~= phys_ranges(ranges@));
    list
}

/// The frame allocator and the state of all pages, as the boot heap hands its
/// memory over.
pub struct FrameSetup {
    pub frames: FrameAllocator,
    pub slub: SlubRuntime,
    /// Blocks for the zones, range by range.
    pub feeds: Vec<Vec<ZoneFeed>>,
}

impl MemorySubsystem {
    /// The zones before any memory was handed over.
    pub open spec fn empty_zones(map: Seq<Arena>, cpu_count: usize) -> FrameAllocator {
        let top = top_of(map, map.len() as int) as u64;
        FrameAllocator {
            cpu_num: at_least(cpu_count, 1),
            low_zone: LLFreeAllocator {
                zone: AllocationZone::Low,
                frame_num: AllocationZone::Low.frames_until(top) as u64,
                total_frames: 0,
            },
            dma32_zone: LLFreeAllocator {
                zone: AllocationZone::Dma32,
                frame_num: AllocationZone::Dma32.frames_until(top) as u64,
                total_frames: 0,
            },
            normal_zone: if top > AllocationZone::Normal.first() {
                Some(
                    LLFreeAllocator {
                        zone: AllocationZone::Normal,
                        frame_num: AllocationZone::Normal.frames_until(top) as u64,
                        total_frames: 0,
                    },
                )
            } else {
                None
            },
        }
    }

    /// Hands the usable memory over to the frame allocator. `sections` and
    /// `pages` are what has been reserved for the state of the pages; where that
    /// is not enough nothing is handed over.
    pub fn init_frame_allocator(
        &mut self,
        map: &Vec<Arena>,
        cpu_count: usize,
        orders: BlockOrders,
        sections: usize,
        pages: usize,
    ) -> (setup: Option<FrameSetup>)
        requires
            old(self).wf(),
            orders.max_order < 64,
            frame_ceil(top_of(map@, map@.len() as int) as u64) <= u64::MAX,
            ({
                let ranges = usable_ranges(old(self)@.boot_heap, map@);
                let zones = Self::empty_zones(map@, cpu_count);
                &&& forall|i: int|
                    0 <= i < ranges.len() ==> page_ceil((#[trigger] ranges[i]).start) <= usize::MAX
                &&& forall|i: int|
                    0 <= i < ranges.len() ==> zones.after_feeds(
                        phys_ranges(ranges),
                        i,
                    ).can_take_all(#[trigger] phys_ranges(ranges)[i])
            }),
        ensures
            final(self).wf(),
            ({
                let ranges = usable_ranges(old(self)@.boot_heap, map@);
                let zones = Self::empty_zones(map@, cpu_count);
                let (used_sections, used_pages) = sections_of(ranges, ranges.len() as int);
                match setup {
                    None => {
                        &&& used_sections.len() > sections || used_pages > pages
                        &&& final(self)@ == old(self)@
                    },
                    Some(setup) => {
                        &&& used_sections.len() <= sections && used_pages <= pages
                        &&& final(self)@ == MemoryView { frames_ready: true, ..old(self)@ }
                        &&& setup.frames == zones.after_feeds(
                            phys_ranges(ranges),
                            ranges.len() as int,
                        )
                        &&& setup.slub.wf()
                        &&& setup.slub.sections() == used_sections
                        &&& setup.slub.pages().len() == used_pages
                        &&& forall|i: int|
                            0 <= i < used_pages ==> #[trigger] setup.slub.pages()[i] == no_page()
                        &&& setup.feeds@.len() == ranges.len()
                        &&& forall|i: int|
                            0 <= i < ranges.len() ==> zones.after_feeds(
                                phys_ranges(ranges),
                                i,
                            ).feeds_match(
                                orders,
                                phys_ranges(ranges)[i],
                                (#[trigger] setup.feeds@[i])@,
                            )
                    },
                }
            }),
    {
        let cpu_num: usize = if cpu_count < 1 {
            1
        } else {
            cpu_count
        };
        let top: usize = max_phys_addr(map);
        let mut frames = FrameAllocator::new(cpu_num, top as u64);
        assert(frames == Self::empty_zones(map@, cpu_count));
        let ranges = self.boot_usable_ranges(map);
        let slub = match SlubRuntime::from_storage(sections, pages, &ranges) {
            Some(slub) => slub,
            None => {
                return None;
            },
        };
        let list = to_phys_ranges(&ranges);
        let feeds = frames.feed_ranges(orders, &list);
        self.set_frames_ready();
        Some(FrameSetup { frames, slub, feeds })
    }
}

/// What is counted for the usable ranges is enough for the state of all their
/// pages.
pub proof fn law_reserve_is_enough(ranges: Seq<MemoryRange>, count: int)
    requires
        0 <= count <= ranges.len(),
        forall|i: int| 0 <= i < ranges.len() ==> (#[trigger] ranges[i]).start <= ranges[i].end,
    ensures
        sections_of(ranges, count).0.len() <= count,
        sections_of(ranges, count).1 <= range_pages(ranges, count),
    decreases count,
{
    if count > 0 {
        law_reserve_is_enough(ranges, count - 1);
        let range = ranges[count - 1];
        assert(range.start <= range.end);
        assert(whole_pages(range) <= (range.end - range.start) / 0x1000);
    }
}

} // verus!
