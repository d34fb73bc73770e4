//! First-fit allocator for the time before there is another.

use vstd::prelude::*;

verus! {

/// Low memory threshold (64KB).
/// Memory below this is excluded to preserve BIOS/real-mode data.
pub const LOW_MEM_THRESHOLD: usize = 0x10000;

/// Bytes that the header of a free region takes up.
pub const REGION_HEADER_LEN: usize = 16;

/// Alignment of the header of a free region, and least alignment of an
/// allocation.
pub const REGION_ALIGN: usize = 8;

/// Size and alignment of an allocation.
#[derive(Debug, Clone, Copy, PartialEq, Eq, Structural)]
pub struct AllocLayout {
    pub size: usize,
    pub align: usize,
}

/// A range of the boot memory map.
#[derive(Debug, Clone, Copy, PartialEq, Eq, Structural)]
pub struct Arena {
    pub start: usize,
    pub end: usize,
    pub usable: bool,
}

/// A block of free memory.
#[derive(Debug, Clone, Copy, PartialEq, Eq, Structural)]
pub struct FreeRegion {
    pub start: usize,
    pub size: usize,
}

impl FreeRegion {
    pub open spec fn first(self) -> int {
        self.start as int
    }

    pub open spec fn len(self) -> int {
        self.size as int
    }

    /// One past the last byte.
    pub open spec fn limit(self) -> int {
        self.first() + self.len()
    }

    /// A region holds its own header, is aligned to it and lies in memory.
    pub open spec fn wf(self) -> bool {
        &&& self.len() >= REGION_HEADER_LEN
        &&& self.first() % REGION_ALIGN as int == 0
        &&& 0 <= self.first()
        &&& self.limit() <= usize::MAX
    }

    /// Get the end address of this region.
    pub fn end(&self) -> (end: usize)
        requires
            self.wf(),
        ensures
            end == self.limit(),
    {
        self.start + self.size
    }

    /// Get the start address of this region.
    pub fn start(&self) -> (start: usize)
        ensures
            start == self.first(),
    {
        self.start
    }

    /// Get the size of this region.
    pub fn size(&self) -> (size: usize)
        ensures
            size == self.len(),
    {
        self.size
    }

    pub open spec fn is(self, first: int, len: int) -> bool {
        self.first() == first && self.len() == len
    }
}

/// The part of a range of memory that can be kept as a free region: above the
/// low memory, from an aligned address on, where it can hold a header.
pub open spec fn usable_part(start: int, size: int) -> Option<(int, int)> {
    let end = start + size;
    let above = if start < LOW_MEM_THRESHOLD {
        LOW_MEM_THRESHOLD as int
    } else {
        start
    };
    let aligned = if above % 8 == 0 {
        above
    } else {
        above + 8 - above % 8
    };
    if end - aligned < REGION_HEADER_LEN {
        None
    } else {
        Some((aligned, end - aligned))
    }
}

/// Regions sorted from high to low addresses.
pub open spec fn descending(regions: Seq<FreeRegion>) -> bool {
    forall|i: int, j: int|
        0 <= i < j < regions.len() ==> (#[trigger] regions[i]).first() >= (
        #[trigger] regions[j]).first()
}

/// Regions sorted from high to low addresses that do not overlap.
pub open spec fn apart(regions: Seq<FreeRegion>) -> bool {
    forall|i: int, j: int|
        0 <= i < j < regions.len() ==> (#[trigger] regions[j]).limit() <= (
        #[trigger] regions[i]).first()
}

/// Whether a byte is free.
pub open spec fn is_free(regions: Seq<FreeRegion>, byte: int) -> bool {
    exists|i: int|
        0 <= i < regions.len() && (#[trigger] regions[i]).first() <= byte < regions[i].limit()
}

/// Bytes that an allocation takes at least.
pub open spec fn need(layout: AllocLayout) -> int {
    if layout.size == 0 {
        1
    } else {
        layout.size as int
    }
}

/// Alignment that an allocation gets at least.
pub open spec fn alignment(layout: AllocLayout) -> int {
    if layout.align < REGION_ALIGN {
        REGION_ALIGN as int
    } else {
        layout.align as int
    }
}

/// Where the highest aligned block that ends in the region begins; it may lie
/// below the region.
pub open spec fn block_start(region: FreeRegion, layout: AllocLayout) -> int {
    let top = region.limit() - need(layout);
    top - top % alignment(layout)
}

/// Whether a region can hold an allocation.
pub open spec fn region_fits(region: FreeRegion, layout: AllocLayout) -> bool {
    region.limit() >= need(layout) && block_start(region, layout) >= region.first()
}

/// The first region from a position on that can hold the allocation; the number
/// of regions where none can.
pub open spec fn first_fit(regions: Seq<FreeRegion>, layout: AllocLayout, from: int) -> int
    decreases regions.len() - from,
{
    if from >= regions.len() {
        regions.len() as int
    } else if region_fits(regions[from], layout) {
        from
    } else {
        first_fit(regions, layout, from + 1)
    }
}

/// What an allocation does to the free regions: it takes the end of the first
/// region that can hold it. A remainder that cannot hold a header is lost.
pub open spec fn alloc_effect(
    before: Seq<FreeRegion>,
    layout: AllocLayout,
    after: Seq<FreeRegion>,
    result: Option<usize>,
) -> bool {
    let at = first_fit(before, layout, 0);
    if at == before.len() {
        result is None && after == before
    } else {
        let start = block_start(before[at], layout);
        let left = start - before[at].first();
        &&& result == Some(start as usize)
        &&& if left < REGION_HEADER_LEN {
            after == before.remove(at)
        } else {
            &&& after.len() == before.len()
            &&& after[at].is(before[at].first(), left)
            &&& forall|i: int| 0 <= i < before.len() && i != at ==> #[trigger] after[i] == before[i]
        }
    }
}

/// Early boot first-fit allocator.
///
/// Maintains a list of free regions sorted by address (highest first).
/// Allocates from the end of the highest suitable region.
pub struct EarlyAllocator {
    regions: Vec<FreeRegion>,
}

impl View for EarlyAllocator {
    type V = Seq<FreeRegion>;

    closed spec fn view(&self) -> Seq<FreeRegion> {
        self.regions@
    }
}

proof fn lemma_first_fit(regions: Seq<FreeRegion>, layout: AllocLayout, from: int)
    requires
        0 <= from <= regions.len(),
    ensures
        from <= first_fit(regions, layout, from) <= regions.len(),
        first_fit(regions, layout, from) < regions.len() ==> region_fits(
            regions[first_fit(regions, layout, from)],
            layout,
        ),
    decreases regions.len() - from,
{
    if from < regions.len() && !region_fits(regions[from], layout) {
        lemma_first_fit(regions, layout, from + 1);
    }
}

impl EarlyAllocator {
    pub open spec fn wf(&self) -> bool {
        &&& descending(self@)
        &&& forall|i: int| 0 <= i < self@.len() ==> (#[trigger] self@[i]).wf()
    }

    pub fn new() -> (allocator: Self)
        ensures
            allocator.wf(),
            allocator@ == Seq::<FreeRegion>::empty(),
    {
        EarlyAllocator { regions: Vec::new() }
    }

    /// Takes over the usable ranges of the boot memory map, one after the other.
    pub fn init_from_map(&mut self, map: &Vec<Arena>)
        requires
            old(self).wf(),
            forall|i: int|
                0 <= i < map@.len() ==> (#[trigger] map@[i]).start <= map@[i].end,
        ensures
            final(self).wf(),
            final(self)@ == regions_of_map(old(self)@, map@, map@.len() as int),
    {
        let mut i: usize = 0;
        while i < map.len()
            invariant
                i <= map@.len(),
                self.wf(),
                forall|j: int|
                    0 <= j < map@.len() ==> (#[trigger] map@[j]).start <= map@[j].end,
                self@ == regions_of_map(old(self)@, map@, i as int),
            decreases map@.len() - i,
        {
            let arena = map[i];
            if arena.usable {
                self.add_region(arena.start, arena.end - arena.start);
            }
            i = i + 1;
        }
    }

    /// Adds the usable part of a range of memory to the free regions.
    pub fn add_region(&mut self, phys_start: usize, size: usize)
        requires
            old(self).wf(),
            phys_start + size <= usize::MAX,
        ensures
            final(self).wf(),
            final(self)@ == with_range(old(self)@, phys_start as int, size as int),
    {
        let end: usize = phys_start + size;
        let above: usize = if phys_start < LOW_MEM_THRESHOLD {
            if end <= LOW_MEM_THRESHOLD {
                return;
            }
            LOW_MEM_THRESHOLD
        } else {
            phys_start
        };
        let pad: usize = if above % REGION_ALIGN == 0 {
            0
        } else {
            REGION_ALIGN - above % REGION_ALIGN
        };
        if end - above < pad {
            return;
        }
        let start: usize = above + pad;
        if end - start < REGION_HEADER_LEN {
            return;
        }
        self.insert_region(FreeRegion { start, size: end - start });
    }

    fn insert_region(&mut self, region: FreeRegion)
        requires
            old(self).wf(),
            region.wf(),
        ensures
            final(self).wf(),
            final(self)@ == insert_sorted(old(self)@, region),
    {
        if self.regions.len() == 0 || region.start > self.regions[0].start {
            self.regions.insert(0, region);
            assert(self@ =~= old(self)@.insert(0, region));
            return;
        }
        let mut at: usize = 1;
        while at < self.regions.len() && self.regions[at].start > region.start
            invariant
                1 <= at <= self@.len(),
                self.wf(),
                *self == *old(self),
                forall|j: int| 0 <= j < at ==> (#[trigger] self@[j]).first() >= region.first(),
                place_from(self@, region, 1) == place_from(self@, region, at as int),
            decreases self@.len() - at,
        {
            at = at + 1;
        }
        self.regions.insert(at, region);
        assert(self@ =~= old(self)@.insert(at as int, region));
    }

    /// Takes memory out of the first region that can hold it.
    pub fn allocate(&mut self, layout: AllocLayout) -> (result: Option<usize>)
        requires
            old(self).wf(),
        ensures
            final(self).wf(),
            alloc_effect(old(self)@, layout, final(self)@, result),
    {
        let size: usize = if layout.size == 0 {
            1
        } else {
            layout.size
        };
        let align: usize = if layout.align < REGION_ALIGN {
            REGION_ALIGN
        } else {
            layout.align
        };
        let mut i: usize = 0;
        while i < self.regions.len()
            invariant
                i <= self@.len(),
                self.wf(),
                *self == *old(self),
                size == need(layout),
                align == alignment(layout),
                align >= 8,
                first_fit(self@, layout, 0) == first_fit(self@, layout, i as int),
            decreases self@.len() - i,
        {
            let region = self.regions[i];
            assert(self@[i as int].wf());
            let end: usize = region.end();
            if end >= size {
                let top: usize = end - size;
                proof {
                    vstd::arithmetic::div_mod::lemma_mod_decreases(top as nat, align as nat);
                }
                let start: usize = top - top % align;
                if start >= region.start {
                    let leftover: usize = start - region.start;
                    if leftover < REGION_HEADER_LEN {
                        let _ = self.regions.remove(i);
                    } else {
                        self.regions.set(
                            i,
                            FreeRegion { start: region.start, size: leftover },
                        );
                    }
                    return Some(start);
                }
            }
            i = i + 1;
        }
        None
    }

    /// A walk over the free regions, from high to low addresses.
    pub fn iter_regions(&self) -> (iter: FreeRegionIter<'_>)
        requires
            self.wf(),
        ensures
            iter.wf(),
            iter.rest() == self@,
    {
        assert(self.regions@.skip(0) =~= self@);
        FreeRegionIter { regions: &self.regions, index: 0 }
    }

    pub fn is_empty(&self) -> (empty: bool)
        ensures
            empty == (self@.len() == 0),
    {
        self.regions.len() == 0
    }

    /// Bytes in all the free regions.
    pub fn free_bytes(&self) -> (bytes: usize)
        requires
            self.wf(),
            total_len(self@, self@.len() as int) <= usize::MAX,
        ensures
            bytes == total_len(self@, self@.len() as int),
    {
        let mut bytes: usize = 0;
        let mut i: usize = 0;
        while i < self.regions.len()
            invariant
                i <= self@.len(),
                self.wf(),
                total_len(self@, self@.len() as int) <= usize::MAX,
                bytes == total_len(self@, i as int),
            decreases self@.len() - i,
        {
            proof {
                assert(self@[i as int].wf());
                lemma_total_grows(self@, i + 1, self@.len() as int);
            }
            bytes = bytes + self.regions[i].size();
            i = i + 1;
        }
        bytes
    }
}

/// Sum of the lengths of the first regions.
pub open spec fn total_len(regions: Seq<FreeRegion>, count: int) -> int
    decreases count,
{
    if count <= 0 {
        0
    } else {
        total_len(regions, count - 1) + regions[count - 1].len()
    }
}

proof fn lemma_total_grows(regions: Seq<FreeRegion>, a: int, b: int)
    requires
        0 <= a <= b <= regions.len(),
        forall|i: int| 0 <= i < regions.len() ==> (#[trigger] regions[i]).wf(),
    ensures
        total_len(regions, a) <= total_len(regions, b),
    decreases b,
{
    if a < b {
        assert(regions[b - 1].wf());
        lemma_total_grows(regions, a, b - 1);
    }
}

/// The first place from a position on where no region begins above the new one.
pub open spec fn place_from(regions: Seq<FreeRegion>, region: FreeRegion, from: int) -> int
    decreases regions.len() - from,
{
    if from >= regions.len() || regions[from].first() <= region.first() {
        from
    } else {
        place_from(regions, region, from + 1)
    }
}

/// Where a region belongs: in front where it begins above all others, and
/// behind those that begin above it.
pub open spec fn insert_place(regions: Seq<FreeRegion>, region: FreeRegion) -> int {
    if regions.len() == 0 || region.first() > regions[0].first() {
        0
    } else {
        place_from(regions, region, 1)
    }
}

pub open spec fn insert_sorted(regions: Seq<FreeRegion>, region: FreeRegion) -> Seq<FreeRegion> {
    regions.insert(insert_place(regions, region), region)
}

/// The regions once the usable part of a range has been added.
pub open spec fn with_range(regions: Seq<FreeRegion>, start: int, size: int) -> Seq<FreeRegion> {
    match usable_part(start, size) {
        None => regions,
        Some((first, len)) => insert_sorted(
            regions,
            FreeRegion { start: first as usize, size: len as usize },
        ),
    }
}

/// The regions once the usable ones of the first arenas have been added.
pub open spec fn regions_of_map(regions: Seq<FreeRegion>, map: Seq<Arena>, count: int) -> Seq<
    FreeRegion,
>
    decreases count,
{
    if count <= 0 {
        regions
    } else {
        let before = regions_of_map(regions, map, count - 1);
        let arena = map[count - 1];
        if arena.usable {
            with_range(before, arena.start as int, arena.end - arena.start)
        } else {
            before
        }
    }
}

/// A walk over the free regions of an allocator.
pub struct FreeRegionIter<'a> {
    regions: &'a Vec<FreeRegion>,
    index: usize,
}

impl<'a> FreeRegionIter<'a> {
    pub closed spec fn wf(&self) -> bool {
        self.index <= self.regions@.len()
    }

    /// The regions that are still to come.
    pub closed spec fn rest(&self) -> Seq<FreeRegion> {
        self.regions@.skip(self.index as int)
    }

    /// Start and size of the next region.
    pub fn next(&mut self) -> (item: Option<(usize, usize)>)
        requires
            old(self).wf(),
        ensures
            final(self).wf(),
            match item {
                None => old(self).rest().len() == 0 && final(self).rest() == old(self).rest(),
                Some((start, size)) => {
                    &&& old(self).rest().len() > 0
                    &&& old(self).rest()[0].is(start as int, size as int)
                    &&& final(self).rest() == old(self).rest().skip(1)
                },
            },
    {
        if self.index >= self.regions.len() {
            return None;
        }
        let region = self.regions[self.index];
        self.index = self.index + 1;
        assert(self.rest() =~= old(self).rest().skip(1));
        Some((region.start, region.size))
    }
}

/// An allocation is aligned and was free, and nothing of it is free any more;
/// what is free afterwards was free before.
pub proof fn law_allocation_is_exclusive(
    before: Seq<FreeRegion>,
    layout: AllocLayout,
    after: Seq<FreeRegion>,
    start: usize,
)
    requires
        apart(before),
        forall|i: int| 0 <= i < before.len() ==> (#[trigger] before[i]).wf(),
        alloc_effect(before, layout, after, Some(start)),
    ensures
        start as int % alignment(layout) == 0,
        forall|byte: int|
            start <= byte < start + need(layout) ==> #[trigger] is_free(before, byte) && !is_free(
                after,
                byte,
            ),
        forall|byte: int| #[trigger] is_free(after, byte) ==> is_free(before, byte),
        apart(after),
{
    let at = first_fit(before, layout, 0);
    lemma_first_fit(before, layout, 0);
    let region = before[at];
    assert(region.wf());
    let top = region.limit() - need(layout);
    let align = alignment(layout);
    assert(align > 0);
    assert((top - top % align) % align == 0) by {
        vstd::arithmetic::div_mod::lemma_fundamental_div_mod(top, align);
        vstd::arithmetic::div_mod::lemma_mod_multiples_basic(top / align, align);
        assert(top - top % align == (top / align) * align) by (nonlinear_arith)
            requires
                top == align * (top / align) + top % align,
        ;
    }
    assert(0 <= top % align) by {
        vstd::arithmetic::div_mod::lemma_mod_bound(top, align);
    }
    assert(start + need(layout) <= region.limit());
    assert forall|byte: int| start <= byte < start + need(layout) implies #[trigger] is_free(
        before,
        byte,
    ) && !is_free(after, byte) by {
        assert(before[at].first() <= byte < before[at].limit());
        if is_free(after, byte) {
            let i = choose|i: int|
                0 <= i < after.len() && (#[trigger] after[i]).first() <= byte < after[i].limit();
            lemma_after_index(before, layout, after, start, i);
        }
    }
    assert forall|byte: int| #[trigger] is_free(after, byte) implies is_free(before, byte) by {
        let i = choose|i: int|
            0 <= i < after.len() && (#[trigger] after[i]).first() <= byte < after[i].limit();
        lemma_after_index(before, layout, after, start, i);
        let j = origin(before, layout, after, i);
        assert(before[j].first() <= byte < before[j].limit());
    }
    assert forall|i: int, j: int| 0 <= i < j < after.len() implies (#[trigger] after[j]).limit() <= (
    #[trigger] after[i]).first() by {
        lemma_after_index(before, layout, after, start, i);
        lemma_after_index(before, layout, after, start, j);
        let a = origin(before, layout, after, i);
        let b = origin(before, layout, after, j);
        assert(before[b].limit() <= before[a].first());
    }
}

/// The region that a region after an allocation comes from.
spec fn origin(
    before: Seq<FreeRegion>,
    layout: AllocLayout,
    after: Seq<FreeRegion>,
    i: int,
) -> int {
    if after.len() < before.len() && i >= first_fit(before, layout, 0) {
        i + 1
    } else {
        i
    }
}

proof fn lemma_after_index(
    before: Seq<FreeRegion>,
    layout: AllocLayout,
    after: Seq<FreeRegion>,
    start: usize,
    i: int,
)
    requires
        apart(before),
        forall|k: int| 0 <= k < before.len() ==> (#[trigger] before[k]).wf(),
        alloc_effect(before, layout, after, Some(start)),
        0 <= i < after.len(),
    ensures
        ({
            let at = first_fit(before, layout, 0);
            let j = origin(before, layout, after, i);
            &&& 0 <= j < before.len()
            &&& after[i].first() == before[j].first()
            &&& after[i].limit() <= before[j].limit()
            &&& j == at ==> after[i].limit() == start
            &&& j < at ==> before[at].limit() <= after[i].first()
            &&& j > at ==> after[i].limit() <= before[at].first()
        }),
{
    lemma_first_fit(before, layout, 0);
    let at = first_fit(before, layout, 0);
    assert(before[at].wf());
    let top = before[at].limit() - need(layout);
    vstd::arithmetic::div_mod::lemma_mod_bound(top, alignment(layout));
    let j = origin(before, layout, after, i);
    if after.len() < before.len() {
        assert(after[i] == before[j]);
    }
}

/// Adding a range makes exactly its usable part free, and none of that lies in
/// low memory.
pub proof fn law_added_range_is_free(
    regions: Seq<FreeRegion>,
    start: int,
    size: int,
    byte: int,
)
    requires
        0 <= start,
        0 <= size,
        start + size <= usize::MAX,
    ensures
        is_free(with_range(regions, start, size), byte) <==> is_free(regions, byte) || (usable_part(
            start,
            size,
        ) matches Some((first, len)) && first <= byte < first + len),
        usable_part(start, size) matches Some((first, len)) ==> first >= LOW_MEM_THRESHOLD
            && first >= start && first + len == start + size,
{
    if let Some((first, len)) = usable_part(start, size) {
        let region = FreeRegion { start: first as usize, size: len as usize };
        let place = insert_place(regions, region);
        if regions.len() > 0 {
            lemma_place_bound(regions, region, 1);
        }
        let after = with_range(regions, start, size);
        assert(after == regions.insert(place, region));
        if is_free(regions, byte) {
            let i = choose|i: int|
                0 <= i < regions.len() && (#[trigger] regions[i]).first() <= byte
                    < regions[i].limit();
            if i < place {
                assert(after[i] == regions[i]);
            } else {
                assert(after[i + 1] == regions[i]);
            }
        }
        if first <= byte < first + len {
            assert(after[place].first() <= byte < after[place].limit());
        }
        if is_free(after, byte) {
            let i = choose|i: int|
                0 <= i < after.len() && (#[trigger] after[i]).first() <= byte < after[i].limit();
            if i < place {
                assert(after[i] == regions[i]);
            } else if i > place {
                assert(after[i] == regions[i - 1]);
            }
        }
    }
}

proof fn lemma_place_bound(regions: Seq<FreeRegion>, region: FreeRegion, from: int)
    requires
        regions.len() > 0,
        1 <= from <= regions.len(),
    ensures
        from <= place_from(regions, region, from) <= regions.len(),
    decreases regions.len() - from,
{
    if from < regions.len() && !(regions[from].first() <= region.first()) {
        lemma_place_bound(regions, region, from + 1);
    }
}

} // verus!
