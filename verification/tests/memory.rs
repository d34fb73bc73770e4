use akarin::memory::early::{AllocLayout, Arena, EarlyAllocator};
use akarin::memory::frame::{
    align_down, align_up, order_for, split_frames, AllocationError, AllocationZone, PhysRange,
};
use akarin::memory::heap::{
    aligned_page_count, alloc_pages, boot_usable_range_stats, max_phys_addr, AllocPhase,
    AllocRoute, FreeRoute, MemorySubsystem, PageAnswer, PageReturn,
};
use akarin::memory::range::VmRange;
use akarin::memory::slab::{class_index, FreshPage, MemoryRange, SlubCache, SlubRuntime};
use akarin::memory::small::SmallObjects;
use akarin::memory::zones::{
    BlockOrders, BlockReply, BlockStep, FrameAllocator, FrameRelease, FrameZone, LLFreeAllocator,
    SearchStep,
};

fn layout(size: usize, align: usize) -> AllocLayout {
    AllocLayout { size, align }
}

fn regions(heap: &EarlyAllocator) -> Vec<(usize, usize)> {
    let mut found = Vec::new();
    let mut iter = heap.iter_regions();
    while let Some(region) = iter.next() {
        found.push(region);
    }
    found
}

#[test]
fn ranges_cover_their_addresses() {
    let range = VmRange::new(0x1000, 0x3000).unwrap();
    assert_eq!((range.start(), range.end(), range.len()), (0x1000, 0x3000, 0x2000));
    assert!(range.contains(0x1000));
    assert!(range.contains(0x2fff));
    assert!(!range.contains(0x3000));
    assert!(VmRange::new(2, 1).is_none());
    assert_eq!(VmRange::new(2, 2).unwrap().len(), 0);
}

#[test]
fn early_heap_keeps_what_lies_above_low_memory() {
    let mut heap = EarlyAllocator::new();
    assert!(heap.is_empty());
    heap.init_from_map(&vec![
        Arena { start: 0x8000, end: 0x12000, usable: true },
        Arena { start: 0x20000, end: 0x30000, usable: false },
        Arena { start: 0x40003, end: 0x41000, usable: true },
        Arena { start: 0x50000, end: 0x50008, usable: true },
    ]);
    assert_eq!(heap.free_bytes(), 0x2000 + 0xff8);
    assert_eq!(regions(&heap), vec![(0x40008, 0xff8), (0x10000, 0x2000)]);
}

#[test]
fn early_allocation_takes_the_end_of_the_highest_region() {
    let mut heap = EarlyAllocator::new();
    heap.add_region(0x10000, 0x1000);
    heap.add_region(0x20000, 0x1000);
    assert_eq!(heap.allocate(layout(0x100, 8)), Some(0x20f00));
    assert_eq!(heap.allocate(layout(1, 0x100)), Some(0x20e00));
    assert_eq!(heap.allocate(layout(0x1000, 8)), Some(0x10000));
    assert_eq!(regions(&heap), vec![(0x20000, 0xe00)]);
    assert_eq!(heap.allocate(layout(0x1000, 8)), None);
    assert_eq!(heap.allocate(layout(0, 1)), Some(0x20df8));
}

#[test]
fn early_allocations_never_overlap() {
    let mut heap = EarlyAllocator::new();
    heap.add_region(0x10000, 0x400);
    let mut taken: Vec<(usize, usize)> = Vec::new();
    while let Some(start) = heap.allocate(layout(0x30, 16)) {
        assert_eq!(start % 16, 0);
        assert!(taken.iter().all(|&(s, e)| start + 0x30 <= s || e <= start));
        taken.push((start, start + 0x30));
    }
    assert_eq!(taken.len(), 21);
}

#[test]
fn returned_early_memory_is_free_again() {
    let mut heap = EarlyAllocator::new();
    heap.add_region(0x10000, 0x100);
    let start = heap.allocate(layout(0x100, 8)).unwrap();
    assert!(heap.is_empty());
    heap.add_region(start, 0x100);
    assert_eq!(heap.allocate(layout(0x100, 8)), Some(0x10000));
}

#[test]
fn each_address_has_one_zone() {
    let zones = [AllocationZone::Low, AllocationZone::Dma32, AllocationZone::Normal];
    for addr in [0u64, 0xf_ffff, 0x10_0000, 0xffff_ffff, 0x1_0000_0000, 0x77_0000_0000] {
        assert_eq!(zones.iter().filter(|zone| zone.contains(addr)).count(), 1);
    }
    assert_eq!(AllocationZone::Low.max_frame_num(), 256);
    assert_eq!(AllocationZone::Dma32.range(), PhysRange { start: 0x10_0000, end: 0x1_0000_0000 });
    assert_eq!(AllocationZone::Low.frame_num_until(0x5001), 6);
    assert_eq!(AllocationZone::Dma32.frame_num_until(0x5001), 0);
    assert_eq!(AllocationZone::Normal.frame_num_until(0x1_0000_2000), 2);
    assert_eq!((align_up(0x1001), align_down(0x1fff), align_up(0x1000)), (0x2000, 0x1000, 0x1000));
}

#[test]
fn frames_split_into_aligned_blocks() {
    let blocks = split_frames(3, 13, 3, 2, 1, 4);
    let shape: Vec<(u64, usize, usize)> =
        blocks.iter().map(|block| (block.frame, block.order, block.local)).collect();
    assert_eq!(shape, vec![(3, 0, 1), (4, 2, 5), (8, 2, 5), (12, 0, 1)]);
    let mut seen = vec![0; 16];
    for block in &blocks {
        for frame in block.frame..block.frame + (1 << block.order) {
            seen[frame as usize] += 1;
        }
    }
    for frame in 0..16 {
        assert_eq!(seen[frame], if (3..13).contains(&frame) { 1 } else { 0 });
    }
    assert!(split_frames(4, 4, 3, 2, 0, 1).is_empty());
}

#[test]
fn block_orders_fit_the_request() {
    assert_eq!(order_for(1, 9), Some(0));
    assert_eq!(order_for(3, 9), Some(2));
    assert_eq!(order_for(512, 9), Some(9));
    assert_eq!(order_for(513, 9), None);
}

#[test]
fn zones_translate_addresses_and_frames() {
    let mut zone = LLFreeAllocator::new(AllocationZone::Dma32, 1000);
    assert!(zone.is_managed(0x10_0000));
    assert!(!zone.is_managed(0xf_ffff));
    assert_eq!(zone.frame_at(0x10_2fff), Ok(2));
    assert_eq!(zone.frame_at(0x1000), Err(AllocationError::UnmanagedAddress(0x1000)));
    assert_eq!(zone.request(None), Ok(None));
    assert_eq!(zone.request(Some(0x10_1000)), Ok(Some(1)));
    assert_eq!(zone.on_reply(BlockReply::Frame(4)), BlockStep::Found(0x10_4000));
    assert_eq!(zone.on_reply(BlockReply::Retry), BlockStep::Again);
    assert_eq!(zone.on_reply(BlockReply::OutOfMemory), BlockStep::OutOfMemory);
    let orders = BlockOrders { max_order: 10, huge_order: 9 };
    let blocks =
        zone.mark_usable(orders, 0, 1, PhysRange { start: 0x10_0800, end: 0x10_3800 });
    assert_eq!(blocks.len(), 2);
    assert_eq!((blocks[0].frame, blocks[0].order), (1, 0));
    assert_eq!((blocks[1].frame, blocks[1].order), (2, 0));
    assert_eq!(zone.total_frames, 2);
    assert_eq!(zone.used_frames(1), 1);
}

#[test]
fn fed_ranges_reach_their_zones() {
    let mut frames = FrameAllocator::new(2, 0x1_0001_0000);
    let orders = BlockOrders { max_order: 10, huge_order: 9 };
    let feeds = frames.feed(orders, PhysRange { start: 0xf_e000, end: 0x10_2000 });
    assert_eq!(feeds.len(), 2);
    assert_eq!(feeds[0].zone, AllocationZone::Low);
    assert_eq!(feeds[1].zone, AllocationZone::Dma32);
    assert_eq!(frames.low_zone.total_frames, 2);
    assert_eq!(frames.dma32_zone.total_frames, 2);
    assert_eq!(frames.total_frames(), 4);
    assert_eq!(frames.zone_of(0x2000), Some(AllocationZone::Low));
    assert_eq!(frames.zone_of(0x1_0000_0000), Some(AllocationZone::Normal));
}

#[test]
fn frame_search_goes_down_the_zones() {
    let frames = FrameAllocator::new(1, 0x2_0000_0000);
    let orders = BlockOrders { max_order: 10, huge_order: 9 };
    let mut zones = Vec::new();
    let mut step = frames.start_search(FrameZone::Normal, 3, orders);
    while let SearchStep::Try(search) = step {
        assert_eq!(search.order, 2);
        zones.push(search.zone);
        step = frames.advance(search, Err(AllocationError::OutOfMemory));
    }
    assert_eq!(zones, vec![FrameZone::Normal, FrameZone::Dma32, FrameZone::LowMem]);
    assert!(matches!(step, SearchStep::Failed(_)));
    let SearchStep::Try(first) = frames.start_search(FrameZone::Dma32, 1, orders) else {
        panic!("a search starts in its zone");
    };
    assert_eq!(first.zone, FrameZone::Dma32);
    assert_eq!(frames.advance(first, Ok(0x20_0000)), SearchStep::Found(0x20_0000));
    assert_eq!(FrameZone::LowMem.lower_zone(), None);
}

#[test]
fn small_layouts_have_the_smallest_class() {
    assert_eq!(class_index(layout(1, 1)), Some(0));
    assert_eq!(class_index(layout(9, 8)), Some(1));
    assert_eq!(class_index(layout(8, 64)), Some(3));
    assert_eq!(class_index(layout(2048, 8)), Some(8));
    assert_eq!(class_index(layout(2049, 8)), None);
    assert!(MemorySubsystem::is_small_layout(layout(2048, 2048)));
    assert!(!MemorySubsystem::is_small_layout(layout(8, 4096)));
}

#[test]
fn slab_objects_are_counted_and_apart() {
    let ranges = vec![MemoryRange { start: 0x10_0000, end: 0x10_4000 }];
    let mut slab = SlubRuntime::from_storage(1, 4, &ranges).unwrap();
    let mut cache = SlubCache::new();
    let fresh = FreshPage { phys: 0x10_1000, virt: 0xa000 };
    let nothing = slab.allocate(&mut cache, 8, None);
    assert_eq!(nothing.object, None);
    let first = slab.allocate(&mut cache, 8, Some(fresh));
    assert!(first.used_fresh);
    let second = slab.allocate(&mut cache, 8, None);
    let mut objects = vec![first.object.unwrap(), second.object.unwrap()];
    objects.sort();
    assert_eq!(objects, vec![0xa000, 0xa800]);
    assert_eq!(slab.allocate(&mut cache, 8, None).object, None);
}

#[test]
fn returned_slab_object_comes_next() {
    let ranges = vec![MemoryRange { start: 0x10_0000, end: 0x10_2000 }];
    let mut slab = SlubRuntime::from_storage(1, 2, &ranges).unwrap();
    let mut cache = SlubCache::new();
    let fresh = FreshPage { phys: 0x10_0000, virt: 0x5000 };
    let first = slab.allocate(&mut cache, 7, Some(fresh)).object.unwrap();
    let _second = slab.allocate(&mut cache, 7, None).object.unwrap();
    assert_eq!(slab.deallocate(&mut cache, first, Some(0x10_0000), layout(1024, 8)), None);
    assert_eq!(slab.allocate(&mut cache, 7, None).object, Some(first));
}

#[test]
fn empty_slab_page_is_given_up_with_its_cache() {
    let ranges = vec![MemoryRange { start: 0x10_0000, end: 0x10_2000 }];
    let mut slab = SlubRuntime::from_storage(1, 2, &ranges).unwrap();
    let mut cache = SlubCache::new();
    let fresh = FreshPage { phys: 0x10_1000, virt: 0x5000 };
    let object = slab.allocate(&mut cache, 6, Some(fresh)).object.unwrap();
    assert_eq!(slab.deallocate(&mut cache, object, Some(0x10_1000), layout(512, 8)), None);
    assert_eq!(slab.release(&mut cache), vec![0x10_1000]);
}

#[test]
fn memory_goes_through_its_phases() {
    let mut memory = MemorySubsystem::new();
    assert_eq!(memory.phase(), AllocPhase::Uninit);
    assert_eq!(memory.alloc_global(layout(8, 8)), AllocRoute::Refused);
    assert_eq!(memory.alloc_global(layout(0, 8)), AllocRoute::Dangling);
    let map = vec![Arena { start: 0x10_0000, end: 0x20_0000, usable: true }];
    assert_eq!(memory.init_boot_heap(&map), Some(0x10_0000));
    assert_eq!(memory.phase(), AllocPhase::BootHeap);
    assert_eq!(memory.alloc_global(layout(8, 8)), AllocRoute::BootHeap);
    assert_eq!(memory.dealloc_global(layout(8, 8)), FreeRoute::BootHeap);
    assert_eq!(memory.total_boot_frames(), 256);
    assert_eq!(alloc_pages(&mut memory, 2, 1), PageAnswer::BootHeap(0x1f_e000));
    assert_eq!(memory.used_boot_frames(), 2);
    assert_eq!(alloc_pages(&mut memory, 0, 1), PageAnswer::Refused);
    memory.set_frames_ready();
    memory.enter_next_phase();
    assert_eq!(memory.phase(), AllocPhase::BootstrapSlub);
    assert_eq!(
        memory.alloc_global(layout(40, 8)),
        AllocRoute::Small { class: 3, per_cpu: false }
    );
    memory.enter_next_phase();
    assert_eq!(
        memory.alloc_global(layout(40, 8)),
        AllocRoute::Small { class: 3, per_cpu: true }
    );
    assert_eq!(
        memory.alloc_global(layout(5000, 8)),
        AllocRoute::Pages { count: 2, align: 8 }
    );
    assert_eq!(memory.dealloc_global(layout(5000, 8)), FreeRoute::Pages { count: 2 });
    assert_eq!(
        memory.alloc_pages_with_zone(Some(0x3000), None, 3, 0x1000),
        PageAnswer::Frames { addr: Some(0x3000), zone: FrameZone::Normal, count: 4 }
    );
}

#[test]
fn page_blocks_are_powers_of_two() {
    assert_eq!(aligned_page_count(3, 1), Some(4));
    assert_eq!(aligned_page_count(1, 0x5000), Some(8));
    assert_eq!(aligned_page_count(0, 0), Some(1));
    assert_eq!(aligned_page_count(usize::MAX, 1), None);
    let map = vec![
        Arena { start: 0, end: 0x9000, usable: true },
        Arena { start: 0x10_0000, end: 0x12_0000, usable: false },
    ];
    assert_eq!(max_phys_addr(&map), 0x9000);
}

#[test]
fn fed_ranges_are_checked_and_counted() {
    let mut frames = FrameAllocator::new(2, 0x1_0001_0000);
    let orders = BlockOrders { max_order: 10, huge_order: 9 };
    let ranges = vec![
        PhysRange { start: 0x1000, end: 0x3000 },
        PhysRange { start: 0x30_0000, end: 0x50_0000 },
        PhysRange { start: 0xffff_f000, end: 0x1_0000_2000 },
    ];
    assert!(ranges.iter().all(|range| frames.can_feed(*range)));
    assert!(!frames.can_feed(PhysRange { start: 0x10_0000, end: 0x10_0800 }));
    let small = FrameAllocator::new(1, 0x1000_0000);
    assert!(!small.can_feed(PhysRange { start: 0x1_0000_0000, end: 0x1_0000_2000 }));
    let feeds = frames.feed_ranges(orders, &ranges);
    assert_eq!(feeds.iter().map(|list| list.len()).collect::<Vec<_>>(), vec![1, 1, 2]);
    assert_eq!((feeds[1][0].blocks.len(), feeds[1][0].blocks[0].order), (1, 9));
    assert_eq!(feeds[1][0].blocks[0].local, 2);
    assert_eq!(feeds[0][0].blocks[0].local, 0);
    assert_eq!(frames.total_frames(), 2 + 512 + 3);
    assert_eq!(frames.used_frames(1, 500, 0), 1 + 13 + 2);
}

#[test]
fn frames_go_back_to_their_zone() {
    let frames = FrameAllocator::new(1, 0x2_0000_0000);
    let orders = BlockOrders { max_order: 10, huge_order: 9 };
    let release = |addr, num| frames.dealloc(addr, num, orders);
    let low = FrameRelease { zone: AllocationZone::Low, frame: 3, order: 0 };
    assert_eq!(release(0x3000, 1), low);
    let dma32 = FrameRelease { zone: AllocationZone::Dma32, frame: 1, order: 2 };
    assert_eq!(release(0x10_1000, 3), dma32);
    let normal = FrameRelease { zone: AllocationZone::Normal, frame: 0, order: 10 };
    assert_eq!(release(0x1_0000_0000, 1024), normal);
}

#[test]
fn pages_go_back_to_who_has_them() {
    let mut memory = MemorySubsystem::new();
    let map = vec![Arena { start: 0x10_0000, end: 0x20_0000, usable: true }];
    assert!(memory.init_boot_heap(&map).is_some());
    assert_eq!(memory.alloc_pages(2, 1), PageAnswer::BootHeap(0x1f_e000));
    assert_eq!((memory.used_frames(None), memory.total_frames(None)), (2, 256));
    assert_eq!(memory.dealloc_pages(Some(0x1f_e000), 0), PageReturn::Nobody);
    assert_eq!(memory.dealloc_pages(None, 2), PageReturn::Nobody);
    assert_eq!(memory.dealloc_pages(Some(0x1f_e000), 2), PageReturn::BootHeap);
    assert_eq!(memory.used_frames(None), 0);
    assert_eq!(memory.alloc_pages_at(0x10_0000, 1, 1, FrameZone::LowMem), PageAnswer::Refused);
    memory.set_frames_ready();
    assert_eq!(memory.dealloc_pages(None, 2), PageReturn::Frames(2));
    assert_eq!((memory.used_frames(Some(7)), memory.total_frames(Some(9))), (7, 9));
    assert_eq!(
        memory.alloc_pages_in_zone(1, 1, FrameZone::Dma32),
        PageAnswer::Frames { addr: None, zone: FrameZone::Dma32, count: 1 }
    );
}

#[test]
fn boot_heap_hands_its_memory_over() {
    let map = vec![
        Arena { start: 0x1000, end: 0x9000, usable: true },
        Arena { start: 0x10_0000, end: 0x20_0000, usable: true },
    ];
    let orders = BlockOrders { max_order: 10, huge_order: 9 };
    let mut memory = MemorySubsystem::new();
    assert!(memory.init_boot_heap(&map).is_some());
    let ranges = memory.boot_usable_ranges(&map);
    let (sections, pages) = boot_usable_range_stats(&ranges);
    assert_eq!((sections, pages), (2, 256 + 8));
    assert!(memory.init_frame_allocator(&map, 0, orders, sections, pages - 1).is_none());
    let setup = memory.init_frame_allocator(&map, 0, orders, sections, pages).unwrap();
    assert_eq!(setup.frames.cpu_num, 1);
    assert_eq!(setup.frames.total_frames(), 256 + 8);
    assert!(setup.frames.normal_zone.is_none());
    assert_eq!(setup.feeds.len(), 2);
    assert_eq!(setup.feeds[0][0].zone, AllocationZone::Dma32);
    memory.enter_next_phase();
    assert_eq!(memory.phase(), AllocPhase::BootstrapSlub);
}

const HALF_PAGE: AllocLayout = AllocLayout { size: 2048, align: 8 };

fn small_objects() -> SmallObjects {
    let ranges = vec![MemoryRange { start: 0x10_0000, end: 0x10_4000 }];
    SmallObjects::new(SlubRuntime::from_storage(1, 4, &ranges).unwrap(), 2)
}

#[test]
fn processors_wait_for_their_caches() {
    let mut objects = small_objects();
    let first = Some(FreshPage { phys: 0x10_0000, virt: 0x90_0000 });
    let refused = objects.alloc_small(HALF_PAGE, Some(0), first);
    assert_eq!((refused.object, refused.used_fresh, refused.freed), (None, false, None));
    let large = objects.alloc_small(AllocLayout { size: 4096, align: 8 }, None, first);
    assert_eq!((large.object, large.used_fresh), (None, false));
    let early = objects.alloc_small(HALF_PAGE, None, first);
    assert_eq!((early.object, early.used_fresh), (Some(0x90_0000), true));
    assert_eq!(objects.dealloc_small(0x90_0000, Some(0x10_0000), HALF_PAGE, Some(1)), None);
    assert_eq!(objects.enter_per_cpu(), vec![]);
    let second = Some(FreshPage { phys: 0x10_1000, virt: 0x91_0000 });
    let served = objects.alloc_small(HALF_PAGE, Some(1), second);
    assert_eq!((served.object, served.used_fresh), (Some(0x91_0000), true));
    assert_eq!(objects.alloc_small(HALF_PAGE, Some(0), None).object, None);
}

#[test]
fn page_leaves_with_its_last_object() {
    let mut objects = small_objects();
    let fresh = Some(FreshPage { phys: 0x10_0000, virt: 0x90_0000 });
    assert_eq!(objects.alloc_small(HALF_PAGE, None, fresh).object, Some(0x90_0000));
    let second = objects.alloc_small(HALF_PAGE, None, None);
    assert_eq!((second.object, second.used_fresh), (Some(0x90_0800), false));
    assert_eq!(objects.dealloc_small(0x90_0000, Some(0x10_0000), HALF_PAGE, None), None);
    assert_eq!(objects.enter_per_cpu(), vec![]);
    assert_eq!(
        objects.dealloc_small(0x90_0800, Some(0x10_0800), HALF_PAGE, Some(0)),
        Some(0x10_0000)
    );
}

#[test]
fn taking_over_gives_idle_pages_back() {
    let mut objects = small_objects();
    let fresh = Some(FreshPage { phys: 0x10_2000, virt: 0x92_0000 });
    assert_eq!(objects.alloc_small(HALF_PAGE, None, fresh).object, Some(0x92_0000));
    assert_eq!(objects.dealloc_small(0x92_0000, Some(0x10_2000), HALF_PAGE, None), None);
    assert_eq!(objects.enter_per_cpu(), vec![0x10_2000]);
}

#[test]
fn no_object_is_handed_out_twice() {
    let mut objects = small_objects();
    let layout = AllocLayout { size: 1024, align: 8 };
    let fresh = Some(FreshPage { phys: 0x10_0000, virt: 0x90_0000 });
    let mut seen = vec![objects.alloc_small(layout, None, fresh).object.unwrap()];
    for _ in 0..3 {
        seen.push(objects.alloc_small(layout, None, None).object.unwrap());
    }
    assert_eq!(seen, vec![0x90_0000, 0x90_0400, 0x90_0800, 0x90_0c00]);
    assert_eq!(objects.alloc_small(layout, None, None).object, None);
}
