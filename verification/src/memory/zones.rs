//! Zones of physical memory and the search for frames across them.

use super::frame::{
    AllocationError, AllocationZone, FRAME_LEN, FrameBlock, PhysRange, align_down, align_up, frame_ceil, frame_floor,
    order_for, split_frames, tiling,
};
use vstd::arithmetic::power2::pow2;
use vstd::prelude::*;

verus! {

/// Zone that a caller wants frames from.
#[derive(Debug, Clone, Copy, PartialEq, Eq, Structural)]
pub enum FrameZone {
    LowMem,
    Dma32,
    Normal,
}

impl FrameZone {
    /// How far down the zones this one stands.
    pub open spec fn rank(self) -> int {
        match self {
            FrameZone::LowMem => 0,
            FrameZone::Dma32 => 1,
            FrameZone::Normal => 2,
        }
    }

    pub open spec fn below(self) -> Option<FrameZone> {
        match self {
            FrameZone::LowMem => None,
            FrameZone::Dma32 => Some(FrameZone::LowMem),
            FrameZone::Normal => Some(FrameZone::Dma32),
        }
    }

    /// The zone to fall back to.
    pub fn lower_zone(self) -> (zone: Option<FrameZone>)
        ensures
            zone == self.below(),
    {
        match self {
            FrameZone::LowMem => None,
            FrameZone::Dma32 => Some(FrameZone::LowMem),
            FrameZone::Normal => Some(FrameZone::Dma32),
        }
    }
}

/// Orders and reserves of the block allocator that serves the zones.
#[derive(Debug, Clone, Copy, PartialEq, Eq, Structural)]
pub struct BlockOrders {
    pub max_order: usize,
    pub huge_order: usize,
}

/// Book-keeping of one zone.
#[derive(Debug, Clone, Copy, PartialEq, Eq, Structural)]
pub struct LLFreeAllocator {
    pub zone: AllocationZone,
    /// Frames that the zone spans.
    pub frame_num: u64,
    /// Frames that have been handed over to the zone.
    pub total_frames: u64,
}

/// What the block allocator answers to a request for a block.
#[derive(Debug, Clone, Copy, PartialEq, Eq, Structural)]
pub enum BlockReply {
    Frame(u64),
    /// Another processor was faster.
    Retry,
    OutOfMemory,
}

/// What a reply of the block allocator leads to.
#[derive(Debug, Clone, Copy, PartialEq, Eq, Structural)]
pub enum BlockStep {
    Again,
    Found(u64),
    OutOfMemory,
}

proof fn lemma_frames_between(base: int, start: int, end: int)
    requires
        base % 0x1000 == 0,
        start % 0x1000 == 0,
        end % 0x1000 == 0,
        base <= start < end,
    ensures
        (end - base) / 0x1000 - (start - base) / 0x1000 == (end - start) / 0x1000,
        (end - start) / 0x1000 > 0,
{
}

proof fn lemma_aligned(addr: u64)
    ensures
        frame_floor(addr) % 0x1000 == 0,
        frame_ceil(addr) % 0x1000 == 0,
        frame_floor(addr) <= addr <= frame_ceil(addr),
{
}

impl LLFreeAllocator {
    pub fn new(zone: AllocationZone, frame_num: u64) -> (allocator: Self)
        requires
            frame_num <= (zone.limit() - zone.first()) / 0x1000,
        ensures
            allocator == (LLFreeAllocator { zone, frame_num, total_frames: 0 }),
    {
        LLFreeAllocator { zone, frame_num, total_frames: 0 }
    }

    pub fn is_managed(&self, addr: u64) -> (managed: bool)
        ensures
            managed == self.zone.covers(addr),
    {
        self.zone.contains(addr)
    }

    /// Number of the frame in its zone that an address lies in.
    pub open spec fn frame_of(self, addr: u64) -> Result<u64, AllocationError> {
        if self.zone.covers(addr) {
            Ok(((addr - self.zone.first()) / 0x1000) as u64)
        } else {
            Err(AllocationError::UnmanagedAddress(addr))
        }
    }

    /// The frame that a request or a return at an address concerns.
    pub fn frame_at(&self, addr: u64) -> (result: Result<u64, AllocationError>)
        ensures
            result == self.frame_of(addr),
    {
        if !self.zone.contains(addr) {
            return Err(AllocationError::UnmanagedAddress(addr));
        }
        Ok((addr - self.zone.range().start) / FRAME_LEN)
    }

    /// The frame that a request asks for, where it asks for one.
    pub fn request(&self, addr: Option<u64>) -> (result: Result<Option<u64>, AllocationError>)
        ensures
            result == (match addr {
                None => Ok::<Option<u64>, AllocationError>(None),
                Some(addr) => match self.frame_of(addr) {
                    Ok(frame) => Ok::<Option<u64>, AllocationError>(Some(frame)),
                    Err(error) => Err::<Option<u64>, AllocationError>(error),
                },
            }),
    {
        match addr {
            None => Ok(None),
            Some(addr) => match self.frame_at(addr) {
                Ok(frame) => Ok(Some(frame)),
                Err(error) => Err(error),
            },
        }
    }

    /// What to do with a reply of the block allocator. A block is known by the
    /// address of its first frame.
    pub fn on_reply(&self, reply: BlockReply) -> (step: BlockStep)
        requires
            reply matches BlockReply::Frame(frame) ==> frame <= (self.zone.limit()
                - self.zone.first()) / 0x1000,
        ensures
            step == (match reply {
                BlockReply::Frame(frame) => BlockStep::Found(
                    (self.zone.first() + frame * 0x1000) as u64,
                ),
                BlockReply::Retry => BlockStep::Again,
                BlockReply::OutOfMemory => BlockStep::OutOfMemory,
            }),
    {
        match reply {
            BlockReply::Frame(frame) => BlockStep::Found(
                self.zone.range().start + frame * FRAME_LEN,
            ),
            BlockReply::Retry => BlockStep::Again,
            BlockReply::OutOfMemory => BlockStep::OutOfMemory,
        }
    }

    /// Number of the first whole frame in a range.
    pub open spec fn first_frame(self, range: PhysRange) -> int {
        (frame_ceil(range.start) - self.zone.first()) / 0x1000
    }

    /// One past the number of the last whole frame in a range.
    pub open spec fn frame_limit(self, range: PhysRange) -> int {
        (frame_floor(range.end) - self.zone.first()) / 0x1000
    }

    /// Whole frames in a range.
    pub open spec fn whole_frames(self, range: PhysRange) -> int {
        if frame_floor(range.end) <= frame_ceil(range.start) {
            0
        } else {
            self.frame_limit(range) - self.first_frame(range)
        }
    }

    /// Whether a range can be handed over to the zone.
    pub open spec fn takes(self, range: PhysRange) -> bool {
        &&& frame_ceil(range.start) <= u64::MAX
        &&& self.zone.covers(range.start)
        &&& self.zone.first() < frame_floor(range.end) <= self.zone.limit()
    }

    /// Whether a range can be handed over to the zone and still be counted.
    fn can_add(&self, range: PhysRange) -> (can: bool)
        ensures
            can == (self.takes(range) && self.total_frames + self.whole_frames(range) <= u64::MAX),
    {
        if range.start % FRAME_LEN != 0 && range.start - range.start % FRAME_LEN > u64::MAX
            - FRAME_LEN {
            return false;
        }
        if !self.zone.contains(range.start) {
            return false;
        }
        let limits = self.zone.range();
        let end: u64 = align_down(range.end);
        if end <= limits.start || end > limits.end {
            return false;
        }
        proof {
            lemma_aligned(range.start);
            lemma_aligned(range.end);
        }
        let start: u64 = align_up(range.start);
        if end <= start {
            return true;
        }
        proof {
            lemma_frames_between(limits.start as int, start as int, end as int);
        }
        let frames: u64 = (end - start) / FRAME_LEN;
        frames <= u64::MAX - self.total_frames
    }

    /// Mark a range of physical addresses as usable for allocation: the blocks
    /// of whole frames to hand over to the block allocator.
    pub fn mark_usable(
        &mut self,
        orders: BlockOrders,
        cpuid: usize,
        cpu_num: usize,
        range: PhysRange,
    ) -> (blocks: Vec<FrameBlock>)
        requires
            orders.max_order < 64,
            cpuid + cpu_num <= usize::MAX,
            old(self).takes(range),
            old(self).total_frames + old(self).whole_frames(range) <= u64::MAX,
        ensures
            *final(self) == (LLFreeAllocator {
                total_frames: (old(self).total_frames + old(self).whole_frames(range)) as u64,
                ..*old(self)
            }),
            old(self).whole_frames(range) == 0 ==> blocks@.len() == 0,
            old(self).whole_frames(range) > 0 ==> tiling(
                blocks@,
                old(self).first_frame(range),
                old(self).frame_limit(range),
                orders.max_order as nat,
            ),
            forall|i: int|
                0 <= i < blocks@.len() ==> (#[trigger] blocks@[i]).local == cpuid
                    + if blocks@[i].order >= orders.huge_order {
                    cpu_num as int
                } else {
                    0
                },
    {
        proof {
            lemma_aligned(range.start);
            lemma_aligned(range.end);
        }
        let start: u64 = align_up(range.start);
        let end: u64 = align_down(range.end);
        if end <= start {
            return Vec::new();
        }
        let base: u64 = self.zone.range().start;
        proof {
            lemma_frames_between(base as int, start as int, end as int);
        }
        let first: u64 = (start - base) / FRAME_LEN;
        let limit: u64 = (end - base) / FRAME_LEN;
        assert(first == self.first_frame(range));
        assert(limit == self.frame_limit(range));
        let blocks = split_frames(
            first,
            limit,
            orders.max_order,
            orders.huge_order,
            cpuid,
            cpu_num,
        );
        self.total_frames = self.total_frames + (end - start) / FRAME_LEN;
        blocks
    }

    /// Frames in use, from the number of frames that are free.
    pub fn used_frames(&self, free_frames: u64) -> (used: u64)
        requires
            free_frames <= self.total_frames,
        ensures
            used == self.total_frames - free_frames,
    {
        self.total_frames - free_frames
    }
}

/// Blocks to hand over to the block allocator of a zone.
pub struct ZoneFeed {
    pub zone: AllocationZone,
    pub blocks: Vec<FrameBlock>,
}

/// Where the search for frames stands.
#[derive(Debug, Clone, Copy, PartialEq, Eq, Structural)]
pub struct FrameSearch {
    pub order: usize,
    pub zone: FrameZone,
}

/// What to do next in a search for frames.
#[derive(Debug, Clone, Copy, PartialEq, Eq, Structural)]
pub enum SearchStep {
    Try(FrameSearch),
    Found(u64),
    Failed(AllocationError),
}

/// Frames that go back to the block allocator of a zone.
#[derive(Debug, Clone, Copy, PartialEq, Eq, Structural)]
pub struct FrameRelease {
    pub zone: AllocationZone,
    pub frame: u64,
    pub order: usize,
}

/// Frames of the whole physical memory.
#[derive(Debug, Clone, Copy, PartialEq, Eq, Structural)]
pub struct FrameAllocator {
    pub cpu_num: usize,
    pub low_zone: LLFreeAllocator,
    pub dma32_zone: LLFreeAllocator,
    pub normal_zone: Option<LLFreeAllocator>,
}

impl FrameAllocator {
    pub open spec fn wf(&self) -> bool {
        &&& self.cpu_num > 0
        &&& self.low_zone.zone == AllocationZone::Low
        &&& self.dma32_zone.zone == AllocationZone::Dma32
        &&& self.normal_zone matches Some(normal) ==> normal.zone == AllocationZone::Normal
    }

    /// Lays out the zones up to the end of physical memory. There is a normal
    /// zone only where memory reaches into it.
    pub fn new(cpu_num: usize, max_phys_addr: u64) -> (allocator: Self)
        requires
            cpu_num != 0,
            frame_ceil(max_phys_addr) <= u64::MAX,
        ensures
            allocator.wf(),
            allocator == (FrameAllocator {
                cpu_num,
                low_zone: LLFreeAllocator {
                    zone: AllocationZone::Low,
                    frame_num: AllocationZone::Low.frames_until(max_phys_addr) as u64,
                    total_frames: 0,
                },
                dma32_zone: LLFreeAllocator {
                    zone: AllocationZone::Dma32,
                    frame_num: AllocationZone::Dma32.frames_until(max_phys_addr) as u64,
                    total_frames: 0,
                },
                normal_zone: if max_phys_addr > AllocationZone::Normal.first() {
                    Some(
                        LLFreeAllocator {
                            zone: AllocationZone::Normal,
                            frame_num: AllocationZone::Normal.frames_until(max_phys_addr) as u64,
                            total_frames: 0,
                        },
                    )
                } else {
                    None
                },
            }),
    {
        let low_zone = LLFreeAllocator::new(
            AllocationZone::Low,
            AllocationZone::Low.frame_num_until(max_phys_addr),
        );
        let dma32_zone = LLFreeAllocator::new(
            AllocationZone::Dma32,
            AllocationZone::Dma32.frame_num_until(max_phys_addr),
        );
        let normal_zone = if max_phys_addr > AllocationZone::Normal.range().start {
            Some(
                LLFreeAllocator::new(
                    AllocationZone::Normal,
                    AllocationZone::Normal.frame_num_until(max_phys_addr),
                ),
            )
        } else {
            None
        };
        FrameAllocator { cpu_num, low_zone, dma32_zone, normal_zone }
    }

    /// The zone allocator of a zone.
    pub open spec fn zone(self, zone: AllocationZone) -> Option<LLFreeAllocator> {
        match zone {
            AllocationZone::Low => Some(self.low_zone),
            AllocationZone::Dma32 => Some(self.dma32_zone),
            AllocationZone::Normal => self.normal_zone,
        }
    }

    /// The part of a range that lies in a zone.
    pub open spec fn part(range: PhysRange, zone: AllocationZone) -> PhysRange {
        PhysRange {
            start: if range.start > zone.first() {
                range.start
            } else {
                zone.first()
            },
            end: if range.end < zone.limit() {
                range.end
            } else {
                zone.limit()
            },
        }
    }

    pub open spec fn meets(range: PhysRange, zone: AllocationZone) -> bool {
        Self::part(range, zone).start < Self::part(range, zone).end
    }

    /// Whether a zone can take its part of a range.
    pub open spec fn can_take(self, range: PhysRange, zone: AllocationZone) -> bool {
        Self::meets(range, zone) ==> {
            &&& self.zone(zone) matches Some(allocator)
            &&& allocator.takes(Self::part(range, zone))
            &&& allocator.total_frames + allocator.whole_frames(Self::part(range, zone)) <= u64::MAX
        }
    }

    /// The book-keeping of a zone once it has taken its part of a range.
    pub open spec fn fed(allocator: LLFreeAllocator, range: PhysRange) -> LLFreeAllocator {
        if Self::meets(range, allocator.zone) {
            LLFreeAllocator {
                total_frames: (allocator.total_frames + allocator.whole_frames(
                    Self::part(range, allocator.zone),
                )) as u64,
                ..allocator
            }
        } else {
            allocator
        }
    }

    /// Whether the feed hands over the whole frames of a zone's part.
    pub open spec fn feed_matches(
        self,
        orders: BlockOrders,
        range: PhysRange,
        feed: ZoneFeed,
        zone: AllocationZone,
    ) -> bool {
        let allocator = self.zone(zone)->0;
        let part = Self::part(range, zone);
        &&& feed.zone == zone
        &&& allocator.whole_frames(part) == 0 ==> feed.blocks@.len() == 0
        &&& allocator.whole_frames(part) > 0 ==> tiling(
            feed.blocks@,
            allocator.first_frame(part),
            allocator.frame_limit(part),
            orders.max_order as nat,
        )
        &&& forall|i: int|
            0 <= i < feed.blocks@.len() ==> (#[trigger] feed.blocks@[i]).local
                == if feed.blocks@[i].order >= orders.huge_order {
                self.cpu_num as int
            } else {
                0
            }
    }

    /// The zones that a range meets, from low to high.
    pub open spec fn zones_of(range: PhysRange) -> Seq<AllocationZone> {
        let low = if Self::meets(range, AllocationZone::Low) {
            seq![AllocationZone::Low]
        } else {
            Seq::empty()
        };
        let dma32 = if Self::meets(range, AllocationZone::Dma32) {
            low.push(AllocationZone::Dma32)
        } else {
            low
        };
        if Self::meets(range, AllocationZone::Normal) {
            dma32.push(AllocationZone::Normal)
        } else {
            dma32
        }
    }

    /// Hands a range of memory over to the zones that it meets.
    pub fn feed(&mut self, orders: BlockOrders, range: PhysRange) -> (feeds: Vec<ZoneFeed>)
        requires
            old(self).wf(),
            orders.max_order < 64,
            old(self).can_take(range, AllocationZone::Low),
            old(self).can_take(range, AllocationZone::Dma32),
            old(self).can_take(range, AllocationZone::Normal),
        ensures
            final(self).wf(),
            *final(self) == (FrameAllocator {
                low_zone: Self::fed(old(self).low_zone, range),
                dma32_zone: Self::fed(old(self).dma32_zone, range),
                normal_zone: match old(self).normal_zone {
                    Some(normal) => Some(Self::fed(normal, range)),
                    None => None,
                },
                ..*old(self)
            }),
            feeds@.len() == Self::zones_of(range).len(),
            forall|i: int|
                0 <= i < feeds@.len() ==> old(self).feed_matches(
                    orders,
                    range,
                    #[trigger] feeds@[i],
                    Self::zones_of(range)[i],
                ),
    {
        let mut feeds: Vec<ZoneFeed> = Vec::new();
        let cpu_num: usize = self.cpu_num;
        let mut rest = range;
        if rest.start < rest.end && self.low_zone.is_managed(rest.start) {
            let piece = Self::take_piece(&mut rest, AllocationZone::Low);
            assert(piece == Self::part(range, AllocationZone::Low));
            let blocks = self.low_zone.mark_usable(orders, 0, cpu_num, piece);
            feeds.push(ZoneFeed { zone: AllocationZone::Low, blocks });
        }
        if rest.start < rest.end && self.dma32_zone.is_managed(rest.start) {
            let piece = Self::take_piece(&mut rest, AllocationZone::Dma32);
            assert(piece == Self::part(range, AllocationZone::Dma32));
            let blocks = self.dma32_zone.mark_usable(orders, 0, cpu_num, piece);
            feeds.push(ZoneFeed { zone: AllocationZone::Dma32, blocks });
        }
        if rest.start < rest.end {
            if let Some(normal) = self.normal_zone {
                if normal.is_managed(rest.start) {
                    let mut normal = normal;
                    let piece = Self::take_piece(&mut rest, AllocationZone::Normal);
                    assert(piece == Self::part(range, AllocationZone::Normal));
                    let blocks = normal.mark_usable(orders, 0, cpu_num, piece);
                    self.normal_zone = Some(normal);
                    feeds.push(ZoneFeed { zone: AllocationZone::Normal, blocks });
                }
            }
        }
        feeds
    }

    /// The book-keeping once all the zones have taken their parts of a range.
    #[verifier::opaque]
    pub open spec fn after_feed(self, range: PhysRange) -> FrameAllocator {
        FrameAllocator {
            low_zone: Self::fed(self.low_zone, range),
            dma32_zone: Self::fed(self.dma32_zone, range),
            normal_zone: match self.normal_zone {
                Some(normal) => Some(Self::fed(normal, range)),
                None => None,
            },
            ..self
        }
    }

    /// The book-keeping once the first ranges have been handed over.
    pub open spec fn after_feeds(self, ranges: Seq<PhysRange>, count: int) -> FrameAllocator
        decreases count,
    {
        if count <= 0 {
            self
        } else {
            self.after_feeds(ranges, count - 1).after_feed(ranges[count - 1])
        }
    }

    /// Whether every zone can take its part of a range.
    #[verifier::opaque]
    pub open spec fn can_take_all(self, range: PhysRange) -> bool {
        &&& self.can_take(range, AllocationZone::Low)
        &&& self.can_take(range, AllocationZone::Dma32)
        &&& self.can_take(range, AllocationZone::Normal)
    }

    /// Whether the feeds of a range go to the zones that it meets.
    #[verifier::opaque]
    pub open spec fn feeds_match(
        self,
        orders: BlockOrders,
        range: PhysRange,
        feeds: Seq<ZoneFeed>,
    ) -> bool {
        &&& feeds.len() == Self::zones_of(range).len()
        &&& forall|i: int|
            0 <= i < feeds.len() ==> self.feed_matches(
                orders,
                range,
                #[trigger] feeds[i],
                Self::zones_of(range)[i],
            )
    }

    fn zone_can_take(zone: AllocationZone, allocator: Option<LLFreeAllocator>, range: PhysRange) -> (
    taken: bool)
        requires
            allocator matches Some(found) ==> found.zone == zone,
        ensures
            taken == (Self::meets(range, zone) ==> (allocator matches Some(found) && found.takes(
                Self::part(range, zone),
            ) && found.total_frames + found.whole_frames(Self::part(range, zone)) <= u64::MAX)),
    {
        let limits = zone.range();
        let start: u64 = if range.start > limits.start {
            range.start
        } else {
            limits.start
        };
        let end: u64 = if range.end < limits.end {
            range.end
        } else {
            limits.end
        };
        let part = PhysRange { start, end };
        assert(part == Self::part(range, zone));
        if start >= end {
            return true;
        }
        match allocator {
            None => false,
            Some(found) => found.can_add(part),
        }
    }

    /// Whether a range can be handed over.
    pub fn can_feed(&self, range: PhysRange) -> (taken: bool)
        requires
            self.wf(),
        ensures
            taken == self.can_take_all(range),
    {
        proof {
            reveal(FrameAllocator::can_take_all);
        }
        Self::zone_can_take(AllocationZone::Low, Some(self.low_zone), range) && Self::zone_can_take(
            AllocationZone::Dma32,
            Some(self.dma32_zone),
            range,
        ) && Self::zone_can_take(AllocationZone::Normal, self.normal_zone, range)
    }

    fn feed_whole(&mut self, orders: BlockOrders, range: PhysRange) -> (feeds: Vec<ZoneFeed>)
        requires
            old(self).wf(),
            orders.max_order < 64,
            old(self).can_take_all(range),
        ensures
            final(self).wf(),
            *final(self) == old(self).after_feed(range),
            old(self).feeds_match(orders, range, feeds@),
    {
        proof {
            reveal(FrameAllocator::after_feed);
            reveal(FrameAllocator::can_take_all);
            reveal(FrameAllocator::feeds_match);
        }
        self.feed(orders, range)
    }

    /// Hands several ranges over, one after the other; the feeds of each range
    /// are kept apart.
    pub fn feed_ranges(&mut self, orders: BlockOrders, ranges: &Vec<PhysRange>) -> (feeds: Vec<
        Vec<ZoneFeed>,
    >)
        requires
            old(self).wf(),
            orders.max_order < 64,
            forall|i: int|
                0 <= i < ranges@.len() ==> old(self).after_feeds(ranges@, i).can_take_all(
                    #[trigger] ranges@[i],
                ),
        ensures
            final(self).wf(),
            *final(self) == old(self).after_feeds(ranges@, ranges@.len() as int),
            feeds@.len() == ranges@.len(),
            forall|i: int|
                0 <= i < ranges@.len() ==> old(self).after_feeds(ranges@, i).feeds_match(
                    orders,
                    ranges@[i],
                    (#[trigger] feeds@[i])@,
                ),
    {
        let mut feeds: Vec<Vec<ZoneFeed>> = Vec::new();
        let mut i: usize = 0;
        while i < ranges.len()
            invariant
                i <= ranges@.len(),
                self.wf(),
                orders.max_order < 64,
                *self == old(self).after_feeds(ranges@, i as int),
                forall|j: int|
                    0 <= j < ranges@.len() ==> old(self).after_feeds(ranges@, j).can_take_all(
                        #[trigger] ranges@[j],
                    ),
                feeds@.len() == i,
                forall|j: int|
                    0 <= j < i ==> old(self).after_feeds(ranges@, j).feeds_match(
                        orders,
                        ranges@[j],
                        (#[trigger] feeds@[j])@,
                    ),
            decreases ranges@.len() - i,
        {
            let part = self.feed_whole(orders, ranges[i]);
            feeds.push(part);
            i = i + 1;
        }
        feeds
    }

    /// Cuts the part in a zone off the front of a range.
    fn take_piece(rest: &mut PhysRange, zone: AllocationZone) -> (piece: PhysRange)
        requires
            old(rest).start < old(rest).end,
            zone.covers(old(rest).start),
        ensures
            piece == Self::part(*old(rest), zone),
            final(rest).start == piece.end,
            final(rest).end == old(rest).end,
    {
        let zone_end: u64 = zone.range().end;
        let feed_end: u64 = if rest.end <= zone_end {
            rest.end
        } else {
            zone_end
        };
        let piece = PhysRange { start: rest.start, end: feed_end };
        rest.start = feed_end;
        piece
    }

    /// Frames that have been handed over to all the zones.
    pub fn total_frames(&self) -> (frames: u64)
        requires
            self.low_zone.total_frames + self.dma32_zone.total_frames + (match self.normal_zone {
                Some(normal) => normal.total_frames as int,
                None => 0,
            }) <= u64::MAX,
        ensures
            frames == self.low_zone.total_frames + self.dma32_zone.total_frames + (
            match self.normal_zone {
                Some(normal) => normal.total_frames as int,
                None => 0,
            }),
    {
        let normal: u64 = match self.normal_zone {
            Some(normal) => normal.total_frames,
            None => 0,
        };
        self.low_zone.total_frames + self.dma32_zone.total_frames + normal
    }

    /// Frames in use in all the zones; the numbers of free frames are those that
    /// the block allocators tell.
    pub fn used_frames(&self, free_low: u64, free_dma32: u64, free_normal: u64) -> (frames: u64)
        requires
            free_low <= self.low_zone.total_frames,
            free_dma32 <= self.dma32_zone.total_frames,
            self.normal_zone matches Some(normal) ==> free_normal <= normal.total_frames,
            self.low_zone.total_frames + self.dma32_zone.total_frames + (match self.normal_zone {
                Some(normal) => normal.total_frames as int,
                None => 0,
            }) <= u64::MAX,
        ensures
            frames == self.low_zone.total_frames - free_low + self.dma32_zone.total_frames
                - free_dma32 + (match self.normal_zone {
                Some(normal) => normal.total_frames - free_normal,
                None => 0,
            }),
    {
        let normal: u64 = match &self.normal_zone {
            Some(normal) => normal.used_frames(free_normal),
            None => 0,
        };
        self.low_zone.used_frames(free_low) + self.dma32_zone.used_frames(free_dma32) + normal
    }

    pub open spec fn has(self, zone: FrameZone) -> bool {
        zone != FrameZone::Normal || self.normal_zone is Some
    }

    /// The zone to try: the first from the wanted one downwards that is there.
    pub open spec fn candidate(self, zone: FrameZone) -> FrameZone {
        if self.has(zone) {
            zone
        } else {
            FrameZone::Dma32
        }
    }

    /// Begins a search for a number of frames.
    pub fn start_search(&self, prefer_zone: FrameZone, num: usize, orders: BlockOrders) -> (step:
        SearchStep)
        requires
            orders.max_order < 64,
        ensures
            match step {
                SearchStep::Try(search) => {
                    &&& search.zone == self.candidate(prefer_zone)
                    &&& search.order <= orders.max_order
                    &&& num <= pow2(search.order as nat)
                    &&& search.order > 0 ==> pow2((search.order - 1) as nat) < num
                },
                SearchStep::Failed(error) => error == AllocationError::OutOfMemory && pow2(
                    orders.max_order as nat,
                ) < num,
                SearchStep::Found(_) => false,
            },
    {
        match order_for(num, orders.max_order) {
            None => SearchStep::Failed(AllocationError::OutOfMemory),
            Some(order) => SearchStep::Try(FrameSearch { order, zone: self.available(prefer_zone) }),
        }
    }

    fn available(&self, zone: FrameZone) -> (candidate: FrameZone)
        ensures
            candidate == self.candidate(zone),
    {
        match zone {
            FrameZone::Normal => {
                if self.normal_zone.is_some() {
                    zone
                } else {
                    FrameZone::Dma32
                }
            },
            _ => zone,
        }
    }

    /// Goes on with a search after a zone has answered: a zone that is out of
    /// memory makes way for the next lower one.
    pub fn advance(&self, search: FrameSearch, reply: Result<u64, AllocationError>) -> (step:
        SearchStep)
        ensures
            step == (match reply {
                Ok(addr) => SearchStep::Found(addr),
                Err(AllocationError::OutOfMemory) => match search.zone.below() {
                    Some(zone) => SearchStep::Try(FrameSearch { zone, ..search }),
                    None => SearchStep::Failed(AllocationError::OutOfMemory),
                },
                Err(error) => SearchStep::Failed(error),
            }),
    {
        match reply {
            Ok(addr) => SearchStep::Found(addr),
            Err(AllocationError::OutOfMemory) => match search.zone.lower_zone() {
                Some(zone) => SearchStep::Try(FrameSearch { zone, order: search.order }),
                None => SearchStep::Failed(AllocationError::OutOfMemory),
            },
            Err(error) => SearchStep::Failed(error),
        }
    }

    /// The zone that frames at an address go back to.
    pub fn zone_of(&self, addr: u64) -> (zone: Option<AllocationZone>)
        requires
            self.wf(),
        ensures
            match zone {
                Some(zone) => zone.covers(addr) && self.zone(zone) is Some,
                None => addr >= AllocationZone::Normal.first() && (self.normal_zone is None || addr
                    == u64::MAX),
            },
    {
        if self.low_zone.is_managed(addr) {
            return Some(AllocationZone::Low);
        }
        if self.dma32_zone.is_managed(addr) {
            return Some(AllocationZone::Dma32);
        }
        match &self.normal_zone {
            Some(normal) => {
                if normal.is_managed(addr) {
                    Some(AllocationZone::Normal)
                } else {
                    None
                }
            },
            None => None,
        }
    }
}

impl FrameAllocator {
    /// Whether an address lies in one of the zones.
    pub open spec fn manages(self, addr: u64) -> bool {
        addr < AllocationZone::Normal.first() || (self.normal_zone is Some && addr != u64::MAX)
    }

    /// Decides where a number of frames goes back to.
    pub fn dealloc(&self, addr: u64, num: usize, orders: BlockOrders) -> (release: FrameRelease)
        requires
            self.wf(),
            self.manages(addr),
            orders.max_order < 64,
            num <= pow2(orders.max_order as nat),
        ensures
            release.zone.covers(addr),
            self.zone(release.zone) is Some,
            release.frame == (addr - release.zone.first()) / 0x1000,
            release.order <= orders.max_order,
            num <= pow2(release.order as nat),
            release.order > 0 ==> pow2((release.order - 1) as nat) < num,
    {
        let order: usize = match order_for(num, orders.max_order) {
            Some(order) => order,
            None => orders.max_order,
        };
        let zone = match self.zone_of(addr) {
            Some(zone) => zone,
            None => AllocationZone::Low,
        };
        FrameRelease { zone, frame: (addr - zone.range().start) / FRAME_LEN, order }
    }
}

/// A search for frames steps down the zones, so it ends, and it never leaves for
/// a zone above the one it began with.
pub proof fn law_search_descends(
    search: FrameSearch,
    zone: FrameZone,
)
    requires
        search.zone.below() == Some(zone),
    ensures
        zone.rank() < search.zone.rank(),
        zone != FrameZone::Normal,
{
}

/// A range that is handed over is cut into parts that cover it.
pub proof fn law_zone_parts_cover(range: PhysRange, addr: u64)
    requires
        range.start <= addr < range.end,
    ensures
        exists|zone: AllocationZone|
            #![trigger zone.covers(addr)]
            zone.covers(addr) && FrameAllocator::meets(range, zone) && FrameAllocator::part(
                range,
                zone,
            ).start <= addr < FrameAllocator::part(range, zone).end,
{
    if AllocationZone::Low.covers(addr) {
    } else if AllocationZone::Dma32.covers(addr) {
    } else {
        assert(AllocationZone::Normal.covers(addr));
    }
}

} // verus!
