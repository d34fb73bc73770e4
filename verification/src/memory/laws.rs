//! What the allocators guarantee, stated over addresses and sizes.

use super::early::{
    alloc_effect, apart, first_fit, is_free, law_allocation_is_exclusive, law_added_range_is_free,
    region_fits, regions_of_map, total_len, usable_part, AllocLayout, Arena, FreeRegion,
};
use super::frame::{frame_ceil, frame_floor, AllocationZone, PhysRange};
use super::heap::{
    free_route, is_page_block, layout_valid, low_ranges, pages_effect, pages_for, phys_ranges, route, top_of,
    usable_ranges, AllocPhase, AllocRoute, FreeRoute, MemorySubsystem, MemoryView, PageAnswer,
};
use super::slab::{
    capacity, class_len, is_class_of, objects_of, page_ceil, page_floor, whole_pages, FreshPage,
    MemoryRange, SlabAllocation, SlabWorld, SlubRuntime, SlubSection,
};
use super::small::SmallView;
use super::zones::{BlockOrders, FrameAllocator, FrameZone, LLFreeAllocator, ZoneFeed};
use vstd::arithmetic::power2::pow2;
use vstd::prelude::*;

verus! {

/// Rounding an address to frames moves it by less than a frame, in the direction
/// that was asked for, onto a multiple of the frame size.
pub proof fn law_rounding_to_frames(addr: u64)
    ensures
        frame_floor(addr) <= addr < frame_floor(addr) + 4096,
        frame_floor(addr) % 4096 == 0,
        addr <= frame_ceil(addr) < addr + 4096,
        frame_ceil(addr) % 4096 == 0,
{
}

/// The same of pages.
pub proof fn law_rounding_to_pages(addr: usize)
    ensures
        page_floor(addr) <= addr < page_floor(addr) + 4096,
        page_floor(addr) % 4096 == 0,
        addr <= page_ceil(addr) < addr + 4096,
        page_ceil(addr) % 4096 == 0,
{
}

/// The whole pages of a range lie in it, and no further page does.
pub proof fn law_whole_pages_lie_in_the_range(range: MemoryRange)
    requires
        range.start <= range.end,
    ensures
        whole_pages(range) > 0 ==> range.start <= page_ceil(range.start) && page_ceil(range.start)
            + whole_pages(range) * 4096 <= range.end,
        range.end < page_ceil(range.start) + (whole_pages(range) + 1) * 4096,
        whole_pages(range) >= 0,
{
}

/// Low memory is the first mebibyte, memory for devices with short addresses ends
/// at four gibibytes, and the rest is normal.
pub proof fn law_zone_limits(addr: u64)
    ensures
        AllocationZone::Low.covers(addr) <==> addr < 1024 * 1024,
        AllocationZone::Dma32.covers(addr) <==> 1024 * 1024 <= addr < 4 * 1024 * 1024 * 1024,
        AllocationZone::Normal.covers(addr) <==> 4 * 1024 * 1024 * 1024 <= addr < u64::MAX,
{
}

/// The frame of an address is the one that holds it, counted from the start of its
/// zone; an address outside of the zone has none.
pub proof fn law_frame_holds_its_address(allocator: LLFreeAllocator, addr: u64)
    ensures
        allocator.frame_of(addr) is Ok <==> allocator.zone.covers(addr),
        allocator.frame_of(addr) matches Ok(frame) ==> allocator.zone.first() + frame * 4096
            <= addr < allocator.zone.first() + (frame + 1) * 4096,
{
}

/// A zone has as many frames as fit between its start and the end of memory.
pub proof fn law_zone_reaches_to_the_end_of_memory(zone: AllocationZone, top: u64)
    requires
        zone.first() < top <= zone.limit(),
        top < u64::MAX - 4096,
    ensures
        top <= zone.first() + zone.frames_until(top) * 4096 < top + 4096,
{
}

/// Frames are looked for in the wanted zone first, and then in the next lower one.
pub proof fn law_lower_zones_follow(allocator: FrameAllocator, zone: FrameZone)
    ensures
        FrameZone::Normal.below() == Some(FrameZone::Dma32),
        FrameZone::Dma32.below() == Some(FrameZone::LowMem),
        FrameZone::LowMem.below() is None,
        allocator.normal_zone is Some ==> allocator.candidate(zone) == zone,
        !(zone is Normal) ==> allocator.candidate(zone) == zone,
        allocator.normal_zone is None && zone is Normal ==> allocator.candidate(zone)
            == FrameZone::Dma32,
{
}

/// A zone counts exactly the whole frames of its part of a range, and a range that
/// it does not meet changes nothing.
pub proof fn law_fed_frames_are_counted(allocator: LLFreeAllocator, range: PhysRange, frame: int)
    requires
        FrameAllocator::meets(range, allocator.zone) ==> allocator.takes(
            FrameAllocator::part(range, allocator.zone),
        ) && allocator.total_frames + allocator.whole_frames(
            FrameAllocator::part(range, allocator.zone),
        ) <= u64::MAX,
    ensures
        ({
            let part = FrameAllocator::part(range, allocator.zone);
            let after = FrameAllocator::fed(allocator, range);
            let first = allocator.first_frame(part);
            let count = after.total_frames - allocator.total_frames;
            &&& after.zone == allocator.zone
            &&& after.frame_num == allocator.frame_num
            &&& !FrameAllocator::meets(range, allocator.zone) ==> after == allocator
            &&& count >= 0
            &&& FrameAllocator::meets(range, allocator.zone) && first <= frame < first + count ==>
                part.start <= allocator.zone.first() + frame * 4096 && allocator.zone.first() + (
            frame + 1) * 4096 <= part.end
            &&& FrameAllocator::meets(range, allocator.zone) && part.start
                <= allocator.zone.first() + frame * 4096 && allocator.zone.first() + (frame + 1)
                * 4096 <= part.end ==> first <= frame < first + count
        }),
{
}

/// The part of a range in a zone is what the range and the zone have in common.
pub proof fn law_part_is_in_common(range: PhysRange, zone: AllocationZone, addr: u64)
    ensures
        FrameAllocator::part(range, zone).start <= addr < FrameAllocator::part(range, zone).end
            <==> range.start <= addr < range.end && zone.covers(addr),
{
}

/// An allocation is aligned as asked for and takes as many bytes as asked for, all
/// of which were free and none of which is free any more.
pub proof fn law_boot_memory_is_given_once(
    before: Seq<FreeRegion>,
    layout: AllocLayout,
    after: Seq<FreeRegion>,
    start: usize,
    byte: int,
)
    requires
        apart(before),
        forall|i: int| 0 <= i < before.len() ==> (#[trigger] before[i]).wf(),
        alloc_effect(before, layout, after, Some(start)),
    ensures
        layout.align >= 8 ==> start as int % layout.align as int == 0,
        start % 8 == 0 || layout.align >= 8,
        start <= byte < start + layout.size ==> is_free(before, byte) && !is_free(after, byte),
        is_free(after, byte) ==> is_free(before, byte),
{
    law_allocation_is_exclusive(before, layout, after, start);
    if start <= byte < start + layout.size {
        assert(is_free(before, byte) && !is_free(after, byte));
    }
}

proof fn lemma_none_fits(regions: Seq<FreeRegion>, layout: AllocLayout, from: int, i: int)
    requires
        0 <= from <= i < regions.len(),
        first_fit(regions, layout, from) == regions.len(),
    ensures
        !region_fits(regions[i], layout),
    decreases i - from,
{
    if from < i {
        lemma_none_fits(regions, layout, from + 1, i);
    }
}

/// Memory is refused only where no free region has room for it at its alignment.
pub proof fn law_boot_memory_is_refused_only_when_full(
    before: Seq<FreeRegion>,
    layout: AllocLayout,
    after: Seq<FreeRegion>,
    i: int,
    start: int,
)
    requires
        alloc_effect(before, layout, after, None),
        0 <= i < before.len(),
        before[i].wf(),
        layout.size > 0,
        layout.align >= 8,
        start % layout.align as int == 0,
    ensures
        after == before,
        !(before[i].start <= start && start + layout.size <= before[i].start + before[i].size),
{
    lemma_none_fits(before, layout, 0, i);
    if before[i].start <= start && start + layout.size <= before[i].start + before[i].size {
        let top = before[i].limit() - layout.size;
        let align = layout.align as int;
        let found = top - top % align;
        assert(found >= start) by (nonlinear_arith)
            requires
                found == top - top % align,
                start <= top,
                start % align == 0,
                align > 0,
                0 <= start,
        {
            let q = top / align;
            let p = start / align;
            assert(top == q * align + top % align);
            assert(start == p * align);
            if q < p {
                assert((q + 1) * align <= p * align);
                assert(top % align < align);
                assert(false);
            }
            assert(p * align <= q * align);
        }
        assert(region_fits(before[i], layout));
    }
}

/// What of a range can be used lies above low memory, begins aligned, loses less
/// than one alignment at its start and nothing at its end; too small a rest is
/// given up.
pub proof fn law_usable_memory_is_kept(start: int, size: int)
    requires
        0 <= start,
        0 <= size,
    ensures
        usable_part(start, size) matches Some((first, len)) ==> {
            &&& first >= 0x10000
            &&& first >= start
            &&& first % 8 == 0
            &&& first + len == start + size
            &&& len >= 16
            &&& start >= 0x10000 ==> first < start + 8
            &&& start < 0x10000 ==> first == 0x10000
        },
        usable_part(start, size) is None ==> start + size < 0x10000 + 16 || size < 16 + 8,
{
}

/// The boot allocator takes over exactly the usable memory of the map: a byte is
/// free afterwards if it was before, or lies in the usable part of a usable arena.
pub proof fn law_map_is_taken_over(
    regions: Seq<FreeRegion>,
    map: Seq<Arena>,
    count: int,
    byte: int,
)
    requires
        0 <= count <= map.len(),
        forall|i: int| 0 <= i < map.len() ==> (#[trigger] map[i]).start <= map[i].end,
    ensures
        is_free(regions_of_map(regions, map, count), byte) <==> is_free(regions, byte) || exists|
            i: int,
        |
            0 <= i < count && (#[trigger] map[i]).usable && (usable_part(
                map[i].start as int,
                map[i].end - map[i].start,
            ) matches Some((first, len)) && first <= byte < first + len),
    decreases count,
{
    if count > 0 {
        law_map_is_taken_over(regions, map, count - 1, byte);
        let before = regions_of_map(regions, map, count - 1);
        let arena = map[count - 1];
        if arena.usable {
            law_added_range_is_free(before, arena.start as int, arena.end - arena.start, byte);
        }
    }
}

/// The low memory that is kept apart is the usable memory below its limit.
pub proof fn law_low_memory_is_kept(map: Seq<Arena>, count: int, byte: int)
    requires
        0 <= count <= map.len(),
    ensures
        (exists|k: int|
            0 <= k < low_ranges(map, count).len() && (#[trigger] low_ranges(map, count)[k]).start
                <= byte < low_ranges(map, count)[k].end) <==> byte < 0x10000 && exists|i: int|
            0 <= i < count && (#[trigger] map[i]).usable && map[i].start <= byte < map[i].end,
    decreases count,
{
    if count > 0 {
        law_low_memory_is_kept(map, count - 1, byte);
        let before = low_ranges(map, count - 1);
        let after = low_ranges(map, count);
        let arena = map[count - 1];
        if exists|k: int| 0 <= k < before.len() && (#[trigger] before[k]).start <= byte
            < before[k].end {
            let k = choose|k: int|
                0 <= k < before.len() && (#[trigger] before[k]).start <= byte < before[k].end;
            assert(after[k] == before[k]);
        }
        if exists|k: int| 0 <= k < after.len() && (#[trigger] after[k]).start <= byte
            < after[k].end {
            let k = choose|k: int|
                0 <= k < after.len() && (#[trigger] after[k]).start <= byte < after[k].end;
            if k < before.len() {
                assert(before[k] == after[k]);
            } else {
                assert(map[count - 1].usable);
            }
        }
        if arena.usable && arena.start <= byte < arena.end && byte < 0x10000 {
            assert(after[before.len() as int].start <= byte < after[before.len() as int].end);
        }
    }
}

/// Physical memory ends where the highest usable arena does.
pub proof fn law_top_is_the_highest_usable_end(map: Seq<Arena>, count: int)
    requires
        0 <= count <= map.len(),
    ensures
        forall|i: int|
            0 <= i < count && (#[trigger] map[i]).usable ==> map[i].end <= top_of(map, count),
        top_of(map, count) == 0 || exists|i: int|
            0 <= i < count && (#[trigger] map[i]).usable && map[i].end == top_of(map, count),
    decreases count,
{
    if count > 0 {
        law_top_is_the_highest_usable_end(map, count - 1);
        assert(map[count - 1] == map[count - 1]);
    }
}

/// As many pages as are counted for a number of bytes hold them, and one fewer do
/// not.
pub proof fn law_pages_hold_the_bytes(bytes: int)
    requires
        0 <= bytes,
    ensures
        pages_for(bytes) * 4096 >= bytes,
        bytes > 0 ==> (pages_for(bytes) - 1) * 4096 < bytes,
        pages_for(0) == 0,
{
}

/// A block of pages is large enough for the pages and for the alignment, and is a
/// power of two, so that a block of its size is aligned to itself.
pub proof fn law_page_block_is_large_enough(num_pages: usize, alignment: usize, count: usize)
    requires
        is_page_block(num_pages, alignment, count),
    ensures
        count >= num_pages,
        count >= 1,
        count * 4096 >= alignment,
        exists|e: nat| count == #[trigger] pow2(e),
{
}

/// Memory goes back to where it came from.
pub proof fn law_memory_goes_back_where_it_came_from(
    phase: AllocPhase,
    layout: AllocLayout,
    served: AllocRoute,
)
    requires
        layout.size > 0,
        route(phase, layout, served),
    ensures
        match served {
            AllocRoute::Dangling => false,
            AllocRoute::Refused => phase is Uninit && free_route(phase, layout) is Nobody,
            AllocRoute::BootHeap => phase is BootHeap && free_route(phase, layout) is BootHeap,
            AllocRoute::Small { class, per_cpu } => free_route(phase, layout) == (
            FreeRoute::Small { per_cpu }) && (per_cpu <==> phase is PerCpuSlub),
            AllocRoute::Pages { count, align } => free_route(phase, layout) == (FreeRoute::Pages {
                count,
            }),
        },
{
}

/// Once there are object classes, a request of at most half a page in size and
/// alignment gets an object that is large enough and aligned, and one from the next
/// smaller class would not be; a larger request gets whole pages that hold it.
pub proof fn law_requests_are_served_by_size(
    phase: AllocPhase,
    layout: AllocLayout,
    served: AllocRoute,
)
    requires
        0 < layout.size <= isize::MAX,
        phase is BootstrapSlub || phase is PerCpuSlub,
        route(phase, layout, served),
    ensures
        layout.size <= 2048 && layout.align <= 2048 <==> served is Small,
        !(layout.size <= 2048 && layout.align <= 2048) <==> served is Pages,
        served matches AllocRoute::Small { class, per_cpu } ==> {
            &&& class < 9
            &&& layout.size <= class_len(class as int)
            &&& layout.align <= class_len(class as int)
            &&& class > 0 ==> layout.size > class_len(class - 1) || layout.align > class_len(
                class - 1,
            )
        },
        served matches AllocRoute::Pages { count, align } ==> count * 4096 >= layout.size && (count
            - 1) * 4096 < layout.size && align == layout.align,
{
    if served is Small {
        let class = choose|class: usize|
            #![trigger is_class_of(layout, Some(class))]
            is_class_of(layout, Some(class)) && served == (AllocRoute::Small {
                class,
                per_cpu: phase == AllocPhase::PerCpuSlub,
            });
        assert(served->class == class);
    }
}

/// The classes of objects double in size from eight bytes to half a page, so each
/// divides a page and its objects are aligned to their size.
pub proof fn law_classes_double(class: int)
    requires
        0 <= class < 8,
    ensures
        class_len(0) == 8,
        class_len(class + 1) == 2 * class_len(class),
        class_len(8) == 2048,
        4096int % class_len(class) == 0,
        capacity(class_len(class)) * class_len(class) == 4096,
{
    let size = class_len(class);
    assert(size == 8 || size == 16 || size == 32 || size == 64 || size == 128 || size == 256 || size
        == 512 || size == 1024);
    assert(4096int / size * size == 4096) by (nonlinear_arith)
        requires
            size > 0,
            4096int % size == 0,
    ;
}

/// Objects of a page are handed out from its start on: the lowest one first.
pub proof fn law_lowest_object_comes_first(page: int, class: int)
    requires
        0 <= class < 9,
        0 <= page,
        page + 4096 <= usize::MAX,
    ensures
        objects_of(page, class_len(class)).len() == 4096int / class_len(class),
        objects_of(page, class_len(class)).last() == page,
{
    let size = class_len(class);
    let last = capacity(size) - 1;
    assert((capacity(size) - 1 - last) * size == 0) by (nonlinear_arith)
        requires
            last == capacity(size) - 1,
    ;
}

/// A range meets the zones that it has an address in, and its parts are handed
/// over from the lowest zone to the highest.
pub proof fn law_range_meets_its_zones(range: PhysRange)
    requires
        range.start < range.end < u64::MAX,
    ensures
        ({
            let zones = FrameAllocator::zones_of(range);
            &&& zones.contains(AllocationZone::Low) <==> range.start < 1024 * 1024
            &&& zones.contains(AllocationZone::Dma32) <==> range.start < 4 * 1024 * 1024 * 1024
                && range.end > 1024 * 1024
            &&& zones.contains(AllocationZone::Normal) <==> range.end > 4 * 1024 * 1024 * 1024
            &&& forall|i: int, j: int|
                0 <= i < j < zones.len() ==> #[trigger] zones[i].first() < #[trigger] zones[j].first()
        }),
{
    let zones = FrameAllocator::zones_of(range);
    let low = if FrameAllocator::meets(range, AllocationZone::Low) {
        1int
    } else {
        0
    };
    if low == 1 {
        assert(zones[0] == AllocationZone::Low);
    }
    let dma32 = if FrameAllocator::meets(range, AllocationZone::Dma32) {
        assert(zones[low] == AllocationZone::Dma32);
        low + 1
    } else {
        low
    };
    if FrameAllocator::meets(range, AllocationZone::Normal) {
        assert(zones[dma32] == AllocationZone::Normal);
    }
    assert forall|i: int| 0 <= i < zones.len() implies (zones[i] is Low ==> low == 1) && (
    zones[i] is Dma32 ==> dma32 > low) by {}
}

/// The blocks that a zone is handed cover its part of a range from the first
/// whole frame to the last, and blocks of the largest kinds go where all
/// processors share.
#[verifier::spinoff_prover]
#[verifier::rlimit(40)]
pub proof fn law_zone_is_handed_its_part(
    allocator: FrameAllocator,
    orders: BlockOrders,
    range: PhysRange,
    feeds: Seq<ZoneFeed>,
    i: int,
)
    requires
        allocator.feeds_match(orders, range, feeds),
        0 <= i < feeds.len(),
    ensures
        feeds.len() == FrameAllocator::zones_of(range).len(),
        feeds[i].zone == FrameAllocator::zones_of(range)[i],
        feeds[i].blocks@.len() > 0 ==> {
            let part = FrameAllocator::part(range, feeds[i].zone);
            let base = allocator.zone(feeds[i].zone)->0.zone.first();
            let first = feeds[i].blocks@[0];
            let last = feeds[i].blocks@.last();
            &&& part.start <= base + first.frame * 4096 < part.start + 4096
            &&& part.end - 4096 < base + (last.frame + pow2(last.order as nat)) * 4096 <= part.end
        },
        forall|k: int|
            0 <= k < feeds[i].blocks@.len() ==> (#[trigger] feeds[i].blocks@[k]).local == (
            if feeds[i].blocks@[k].order >= orders.huge_order {
                allocator.cpu_num as int
            } else {
                0
            }),
{
    reveal(FrameAllocator::feeds_match);
    let feed = feeds[i];
    assert(allocator.feed_matches(orders, range, feed, FrameAllocator::zones_of(range)[i]));
}

/// Each range is handed over on top of those before it.
pub proof fn law_ranges_are_fed_one_by_one(
    allocator: FrameAllocator,
    ranges: Seq<PhysRange>,
    count: int,
)
    requires
        0 <= count < ranges.len(),
    ensures
        allocator.after_feeds(ranges, 0) == allocator,
        ({
            let before = allocator.after_feeds(ranges, count);
            let after = allocator.after_feeds(ranges, count + 1);
            &&& after.cpu_num == before.cpu_num
            &&& after.low_zone == FrameAllocator::fed(before.low_zone, ranges[count])
            &&& after.dma32_zone == FrameAllocator::fed(before.dma32_zone, ranges[count])
            &&& before.normal_zone matches Some(normal) ==> after.normal_zone == Some(
                FrameAllocator::fed(normal, ranges[count]),
            )
            &&& before.normal_zone is None ==> after.normal_zone is None
        }),
{
    reveal(FrameAllocator::after_feed);
}

/// The zones begin without a frame to hand out. There is a zone above four
/// gibibytes only where memory reaches there, and there is at least one processor.
pub proof fn law_zones_begin_empty(map: Seq<Arena>, cpu_count: usize)
    ensures
        ({
            let zones = MemorySubsystem::empty_zones(map, cpu_count);
            &&& zones.low_zone.total_frames == 0
            &&& zones.dma32_zone.total_frames == 0
            &&& zones.normal_zone matches Some(normal) ==> normal.total_frames == 0
            &&& zones.low_zone.zone is Low
            &&& zones.dma32_zone.zone is Dma32
            &&& zones.normal_zone is Some <==> top_of(map, map.len() as int) as u64 > 4 * 1024
                * 1024 * 1024
            &&& cpu_count > 0 ==> zones.cpu_num == cpu_count
            &&& cpu_count == 0 ==> zones.cpu_num == 1
        }),
{
}

/// A request for no pages is refused. Before the frame allocator is there pages
/// come from the boot heap, and a wanted address is refused. Afterwards they come
/// from the frames of the zone that was asked for, or else of the normal one.
pub proof fn law_pages_come_from_where_memory_is(
    before: MemoryView,
    after: MemoryView,
    addr: Option<u64>,
    zone: Option<FrameZone>,
    num_pages: usize,
    alignment: usize,
    answer: PageAnswer,
)
    requires
        pages_effect(before, after, addr, zone, num_pages, alignment, answer),
    ensures
        num_pages == 0 ==> answer is Refused && after == before,
        before.frames_ready ==> after == before && !(answer is BootHeap),
        !before.frames_ready ==> !(answer is Frames),
        !before.frames_ready && addr is Some ==> answer is Refused,
        answer matches PageAnswer::Frames { addr: asked, zone: wanted, count } ==> {
            &&& asked == addr
            &&& count >= num_pages
            &&& zone matches Some(given) ==> wanted == given
            &&& zone is None ==> wanted is Normal
        },
{
}

/// Ranges keep their bounds on the way to the frame allocator.
pub proof fn law_ranges_keep_their_bounds(
    regions: Seq<FreeRegion>,
    map: Seq<Arena>,
    i: int,
)
    requires
        0 <= i < regions.len(),
    ensures
        ({
            let ranges = usable_ranges(regions, map);
            &&& ranges[i].start == regions[i].start
            &&& (regions[i].start + regions[i].size <= usize::MAX ==> ranges[i].end == regions[i].start
                + regions[i].size)
            &&& phys_ranges(ranges).len() == ranges.len()
            &&& phys_ranges(ranges)[i].start == ranges[i].start
            &&& phys_ranges(ranges)[i].end == ranges[i].end
        }),
{
}

/// Before the frame allocator is there, the pages in use are those that the boot
/// heap had and has no more, rounded up.
pub proof fn law_boot_pages_in_use(view: MemoryView)
    ensures
        ({
            let free = total_len(view.boot_heap, view.boot_heap.len() as int);
            let used = MemorySubsystem::used_before_frames(view);
            &&& view.early_total_bytes <= free ==> used == 0
            &&& view.early_total_bytes > free ==> view.early_total_bytes - free <= used * 4096
                < view.early_total_bytes - free + 4096
        }),
{
}

/// Each processor has a cache of its own, and none of them is the one that is in
/// use while only one processor runs.
pub proof fn law_caches_are_separate(a: Option<usize>, b: Option<usize>)
    ensures
        SmallView::cache_of(a) == SmallView::cache_of(b) ==> a == b,
        SmallView::cache_of(None) == 0,
        a is Some ==> SmallView::cache_of(a) > 0,
{
}

/// A small object comes from the page that the cache has, as long as that has a
/// free one, and is the one that was returned last. Otherwise it is the first of
/// a fresh page. The page that was used up goes back once nothing refers to it.
pub proof fn law_objects_come_from_the_cached_page(
    sections: Seq<SlubSection>,
    class: int,
    fresh: Option<FreshPage>,
    before: SlabWorld,
    after: SlabWorld,
    result: SlabAllocation,
    at: int,
)
    requires
        SlubRuntime::alloc_effect(sections, class, fresh, before, after, result),
        SlubRuntime::slot_from(sections, before.cache[class], 0) == Some(at),
        0 <= at < before.pages.len(),
        0 <= class < before.cache.len(),
        before.cache[class] != 0,
    ensures
        before.pages[at].free.len() > 0 ==> {
            &&& result.object == Some(before.pages[at].free.last())
            &&& !result.used_fresh
            &&& result.freed is None
            &&& after.pages[at].free == before.pages[at].free.drop_last()
            &&& before.pages[at].free.len() > 1 ==> after.cache == before.cache
            &&& before.pages[at].free.len() == 1 ==> after.cache[class] == 0
        },
        before.pages[at].free.len() == 0 ==> {
            &&& result.freed is Some <==> before.pages[at].refcount == 1
            &&& result.freed matches Some(page) ==> page == before.cache[class]
            &&& fresh is None ==> result.object is None && !result.used_fresh && after.cache[class]
                == 0
            &&& fresh matches Some(page) ==> result.object == Some(page.virt) && result.used_fresh
                && after.cache[class] == page.phys
        },
{
}

/// An object that comes back is the next that its page hands out. A page whose last
/// object came back goes back itself.
pub proof fn law_last_object_takes_its_page(
    sections: Seq<SlubSection>,
    class: usize,
    page: usize,
    object: usize,
    before: SlabWorld,
    after: SlabWorld,
    freed: Option<usize>,
    at: int,
)
    requires
        SlubRuntime::dealloc_effect(
            sections,
            Some(class),
            Some(page),
            object,
            before,
            after,
            freed,
        ),
        SlubRuntime::slot_from(sections, page, 0) == Some(at),
        0 <= at < before.pages.len(),
        class < before.cache.len(),
    ensures
        freed is Some <==> before.pages[at].refcount == 1,
        freed matches Some(gone) ==> gone == page,
        freed is None ==> after.pages[at].free == before.pages[at].free.push(object),
        freed is None && before.pages[at].free.len() == 0 && before.cache[class as int] == 0
            ==> after.cache[class as int] == page && after.pages[at].refcount
            == before.pages[at].refcount,
        freed is None && !(before.pages[at].free.len() == 0 && before.cache[class as int] == 0)
            ==> after.cache == before.cache && after.pages[at].refcount
            == before.pages[at].refcount - 1,
        forall|other: int|
            0 <= other < before.pages.len() && other != at ==> #[trigger] after.pages[other]
                == before.pages[other],
{
}

/// A processor whose cache is not ready yet gets no small object, and neither does
/// a request that is too large for one. Nothing changes then.
pub proof fn law_small_objects_wait_for_the_caches(
    before: SmallView,
    after: SmallView,
    class: Option<usize>,
    cpu: Option<usize>,
    fresh: Option<FreshPage>,
    result: SlabAllocation,
)
    requires
        before.alloc_small_effect(after, class, cpu, fresh, result),
        class is None || (cpu is Some && !before.ready),
    ensures
        result.object is None,
        !result.used_fresh,
        result.freed is None,
        after == before,
{
}

/// The same of an object that comes back before the caches are ready.
pub proof fn law_small_objects_come_back_to_the_caches(
    before: SmallView,
    after: SmallView,
    class: Option<usize>,
    cpu: Option<usize>,
    page: Option<usize>,
    object: usize,
    freed: Option<usize>,
)
    requires
        before.dealloc_small_effect(after, class, cpu, page, object, freed),
        SmallView::cache_of(cpu) < before.caches.len(),
    ensures
        cpu is Some && !before.ready ==> after == before && freed is None,
        after.ready == before.ready,
        after.sections == before.sections,
        forall|c: int|
            0 <= c < before.caches.len() && c != SmallView::cache_of(cpu)
                ==> #[trigger] after.caches[c] == before.caches[c],
{
}

/// A cache that has let go of its pages has none.
pub proof fn law_released_cache_is_empty(
    sections: Seq<SlubSection>,
    world: SlabWorld,
    count: int,
    class: int,
)
    requires
        0 <= class < count <= world.cache.len(),
    ensures
        SlubRuntime::after_release(sections, world, count).cache[class] == 0,
        SlubRuntime::after_release(sections, world, count).cache.len() == world.cache.len(),
    decreases count,
{
    if class < count - 1 {
        law_released_cache_is_empty(sections, world, count - 1, class);
    } else if count > 1 {
        law_released_cache_is_empty(sections, world, count - 1, 0);
    } else {
        reveal_with_fuel(SlubRuntime::after_release, 2);
    }
}

/// The heap can be asked for a size at a power of two, as long as the size rounded
/// up to it can be an offset.
pub proof fn law_layouts_can_be_rounded(size: int, align: usize)
    requires
        0 <= size,
    ensures
        layout_valid(size, align) <==> (exists|e: nat| align == #[trigger] pow2(e)) && size + (align
            - 1) <= isize::MAX,
{
}

/// Memory below four gibibytes is always managed, and memory above where there is
/// a zone for it.
pub proof fn law_zones_manage_memory(allocator: FrameAllocator, addr: u64)
    requires
        addr < u64::MAX,
    ensures
        addr < 4 * 1024 * 1024 * 1024 ==> allocator.manages(addr),
        addr >= 4 * 1024 * 1024 * 1024 ==> (allocator.manages(addr) <==> allocator.normal_zone
            is Some),
{
}

} // verus!
