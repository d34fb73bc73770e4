//! Physical frames: zones, blocks and the search for a free block.

use vstd::arithmetic::power2::{lemma_pow2_adds, lemma_pow2_pos, lemma_pow2_strictly_increases, lemma_pow2_unfold, pow2};
use vstd::prelude::*;

verus! {

/// Size of a frame.
pub const FRAME_LEN: u64 = 0x1000;

const ONE_MIB: u64 = 0x10_0000;

const FOUR_GIB: u64 = 0x1_0000_0000;

/// Range `start..end` of physical addresses.
#[derive(Debug, Clone, Copy, PartialEq, Eq, Structural)]
pub struct PhysRange {
    pub start: u64,
    pub end: u64,
}

/// Errors of the frame allocator.
#[derive(Debug, Clone, Copy, PartialEq, Eq, Structural)]
pub enum AllocationError {
    OutOfMemory,
    UnmanagedAddress(u64),
    Unknown,
}

/// Part of physical memory whose frames are managed together.
#[derive(Debug, Clone, Copy, PartialEq, Eq, Structural)]
pub enum AllocationZone {
    Low,
    Dma32,
    Normal,
}

/// Largest multiple of the frame size that is not above the address.
pub open spec fn frame_floor(addr: u64) -> u64 {
    (addr - addr % 0x1000) as u64
}

/// Smallest multiple of the frame size that is not below the address.
pub open spec fn frame_ceil(addr: u64) -> int {
    if addr % 0x1000 == 0 {
        addr as int
    } else {
        addr - addr % 0x1000 + 0x1000
    }
}

impl AllocationZone {
    pub open spec fn first(self) -> u64 {
        match self {
            AllocationZone::Low => 0,
            AllocationZone::Dma32 => 0x10_0000,
            AllocationZone::Normal => 0x1_0000_0000,
        }
    }

    pub open spec fn limit(self) -> u64 {
        match self {
            AllocationZone::Low => 0x10_0000,
            AllocationZone::Dma32 => 0x1_0000_0000,
            AllocationZone::Normal => u64::MAX,
        }
    }

    pub open spec fn covers(self, addr: u64) -> bool {
        self.first() <= addr < self.limit()
    }

    pub fn range(&self) -> (range: PhysRange)
        ensures
            range.start == self.first(),
            range.end == self.limit(),
    {
        match self {
            AllocationZone::Low => PhysRange { start: 0, end: ONE_MIB },
            AllocationZone::Dma32 => PhysRange { start: ONE_MIB, end: FOUR_GIB },
            AllocationZone::Normal => PhysRange { start: FOUR_GIB, end: u64::MAX },
        }
    }

    pub fn contains(&self, addr: u64) -> (contains: bool)
        ensures
            contains == self.covers(addr),
    {
        let range = self.range();
        range.start <= addr && addr < range.end
    }

    /// Number of frames that the zone can have at most.
    pub fn max_frame_num(&self) -> (frames: u64)
        ensures
            frames == (self.limit() - self.first()) / 0x1000,
    {
        let range = self.range();
        (range.end - range.start) / FRAME_LEN
    }

    /// Number of frames of the zone up to the end of physical memory.
    pub open spec fn frames_until(self, max_phys_addr: u64) -> int {
        let top = if frame_ceil(max_phys_addr) < self.limit() {
            frame_ceil(max_phys_addr)
        } else {
            self.limit() as int
        };
        if top <= self.first() {
            0
        } else {
            (top - self.first()) / 0x1000
        }
    }

    pub fn frame_num_until(&self, max_phys_addr: u64) -> (frames: u64)
        requires
            frame_ceil(max_phys_addr) <= u64::MAX,
        ensures
            frames == self.frames_until(max_phys_addr),
            frames <= (self.limit() - self.first()) / 0x1000,
    {
        let range = self.range();
        let ceil: u64 = align_up(max_phys_addr);
        let end: u64 = if range.end < ceil {
            range.end
        } else {
            ceil
        };
        if end <= range.start {
            return 0;
        }
        (end - range.start) / FRAME_LEN
    }
}

/// Rounds an address up to a frame.
pub fn align_up(addr: u64) -> (aligned: u64)
    requires
        frame_ceil(addr) <= u64::MAX,
    ensures
        aligned == frame_ceil(addr),
{
    if addr % FRAME_LEN == 0 {
        addr
    } else {
        addr - addr % FRAME_LEN + FRAME_LEN
    }
}

/// Rounds an address down to a frame.
pub fn align_down(addr: u64) -> (aligned: u64)
    ensures
        aligned == frame_floor(addr),
{
    addr - addr % FRAME_LEN
}

/// Every address below the top one lies in exactly one zone.
pub proof fn law_zones_partition_memory(addr: u64)
    requires
        addr < u64::MAX,
    ensures
        AllocationZone::Low.covers(addr) || AllocationZone::Dma32.covers(addr)
            || AllocationZone::Normal.covers(addr),
        forall|a: AllocationZone, b: AllocationZone|
            #![trigger a.covers(addr), b.covers(addr)]
            a.covers(addr) && b.covers(addr) ==> a == b,
{
}

/// A run of frames, a power of two of them.
#[derive(Debug, Clone, Copy, PartialEq, Eq, Structural)]
pub struct FrameBlock {
    pub frame: u64,
    pub order: usize,
    /// Local reserve of the allocator that the block is put into.
    pub local: usize,
}

/// Whether a block of the order can begin at a frame: it is aligned to its own
/// size and ends before the limit.
pub open spec fn order_fits(frame: int, end: int, max_order: nat, order: nat) -> bool {
    &&& order <= max_order
    &&& frame % pow2(order) as int == 0
    &&& frame + pow2(order) <= end
}

/// Whether a block of the order is the largest that can begin at a frame.
pub open spec fn best_order(frame: int, end: int, max_order: nat, order: nat) -> bool {
    &&& order_fits(frame, end, max_order, order)
    &&& forall|other: nat| #[trigger]
        order_fits(frame, end, max_order, other) ==> other <= order
}

/// Whether the blocks cover the frames from `start` up to `end`, one after the
/// other, each as large as it can be.
pub open spec fn tiling(
    blocks: Seq<FrameBlock>,
    start: int,
    end: int,
    max_order: nat,
) -> bool {
    &&& forall|i: int|
        0 <= i < blocks.len() ==> best_order(
            (#[trigger] blocks[i]).frame as int,
            end,
            max_order,
            blocks[i].order as nat,
        )
    &&& forall|i: int|
        #![trigger blocks[i]]
        0 < i < blocks.len() ==> blocks[i].frame == blocks[i - 1].frame + pow2(
            blocks[i - 1].order as nat,
        )
    &&& if blocks.len() == 0 {
        start >= end
    } else {
        &&& blocks[0].frame == start
        &&& blocks.last().frame + pow2(blocks.last().order as nat) == end
    }
}

proof fn lemma_power_divides(frame: int, small: nat, large: nat)
    requires
        small <= large,
        frame % pow2(large) as int == 0,
    ensures
        frame % pow2(small) as int == 0,
{
    let rest = (large - small) as nat;
    lemma_pow2_pos(small);
    lemma_pow2_pos(large);
    lemma_pow2_adds(small, rest);
    let a = pow2(small) as int;
    let b = pow2(rest) as int;
    let whole = pow2(large) as int;
    let k = frame / whole;
    vstd::arithmetic::div_mod::lemma_fundamental_div_mod(frame, whole);
    assert(whole * k == (b * k) * a) by (nonlinear_arith)
        requires
            whole == a * b,
    ;
    vstd::arithmetic::div_mod::lemma_mod_multiples_basic(b * k, a);
}

/// The largest block that can begin at a frame.
fn block_order(frame: u64, end: u64, max_order: usize) -> (best: (usize, u64))
    requires
        frame < end,
        max_order < 64,
    ensures
        best_order(frame as int, end as int, max_order as nat, best.0 as nat),
        best.1 == pow2(best.0 as nat),
        best.0 <= max_order,
{
    let mut order: usize = 0;
    let mut len: u64 = 1;
    proof {
        vstd::arithmetic::power2::lemma2_to64();
    }
    while order < max_order && len <= (end - frame) / 2 && frame % (2 * len) == 0
        invariant
            frame < end,
            order <= max_order,
            len >= 1,
            len == pow2(order as nat),
            order_fits(frame as int, end as int, max_order as nat, order as nat),
        decreases max_order - order,
    {
        proof {
            lemma_pow2_unfold((order + 1) as nat);
        }
        len = len * 2;
        order = order + 1;
    }
    proof {
        lemma_pow2_unfold((order + 1) as nat);
        assert forall|other: nat| #[trigger]
            order_fits(frame as int, end as int, max_order as nat, other) implies other <= order by {
            if other > order {
                lemma_power_divides(frame as int, (order + 1) as nat, other);
                if other > order + 1 {
                    lemma_pow2_strictly_increases((order + 1) as nat, other);
                }
            }
        }
    }
    (order, len)
}

/// Splits a run of frames into the largest blocks.
pub fn split_frames(
    start: u64,
    end: u64,
    max_order: usize,
    huge_order: usize,
    cpuid: usize,
    cpu_num: usize,
) -> (blocks: Vec<FrameBlock>)
    requires
        max_order < 64,
        cpuid + cpu_num <= usize::MAX,
    ensures
        tiling(blocks@, start as int, end as int, max_order as nat),
        forall|i: int|
            0 <= i < blocks@.len() ==> (#[trigger] blocks@[i]).local == cpuid + if blocks@[i].order
                >= huge_order {
                cpu_num as int
            } else {
                0
            },
{
    let mut blocks: Vec<FrameBlock> = Vec::new();
    let mut frame: u64 = start;
    while frame < end
        invariant
            max_order < 64,
            cpuid + cpu_num <= usize::MAX,
            start <= frame,
            blocks@.len() > 0 ==> frame <= end,
            forall|i: int|
                0 <= i < blocks@.len() ==> best_order(
                    (#[trigger] blocks@[i]).frame as int,
                    end as int,
                    max_order as nat,
                    blocks@[i].order as nat,
                ),
            forall|i: int|
                #![trigger blocks@[i]]
                0 < i < blocks@.len() ==> blocks@[i].frame == blocks@[i - 1].frame + pow2(
                    blocks@[i - 1].order as nat,
                ),
            if blocks@.len() == 0 {
                frame == start
            } else {
                &&& blocks@[0].frame == start
                &&& blocks@.last().frame + pow2(blocks@.last().order as nat) == frame
            },
            forall|i: int|
                0 <= i < blocks@.len() ==> (#[trigger] blocks@[i]).local == cpuid
                    + if blocks@[i].order >= huge_order {
                    cpu_num as int
                } else {
                    0
                },
        decreases end - frame,
    {
        let (order, len) = block_order(frame, end, max_order);
        proof {
            lemma_pow2_pos(order as nat);
        }
        let local: usize = if order >= huge_order {
            cpuid + cpu_num
        } else {
            cpuid
        };
        blocks.push(FrameBlock { frame, order, local });
        frame = frame + len;
    }
    blocks
}

/// The blocks of a split cover every frame of the run, and no frame twice.
pub proof fn law_split_covers_each_frame_once(
    blocks: Seq<FrameBlock>,
    start: int,
    end: int,
    max_order: nat,
    frame: int,
)
    requires
        tiling(blocks, start, end, max_order),
    ensures
        start <= frame < end <==> exists|i: int| #[trigger] in_block(blocks, i, frame),
        forall|i: int, j: int|
            #![trigger in_block(blocks, i, frame), in_block(blocks, j, frame)]
            in_block(blocks, i, frame) && in_block(blocks, j, frame) ==> i == j,
{
    if start <= frame < end {
        lemma_some_block(blocks, start, end, max_order, frame, 0);
    }
    assert forall|i: int| #[trigger] in_block(blocks, i, frame) implies start <= frame < end by {
        lemma_blocks_ascend(blocks, start, end, max_order, 0, i);
    }
    assert forall|i: int, j: int|
        #![trigger in_block(blocks, i, frame), in_block(blocks, j, frame)]
        in_block(blocks, i, frame) && in_block(blocks, j, frame) implies i == j by {
        if i < j {
            lemma_blocks_ascend(blocks, start, end, max_order, i, j);
        } else if j < i {
            lemma_blocks_ascend(blocks, start, end, max_order, j, i);
        }
    }
}

/// Whether a frame lies in a block.
pub open spec fn in_block(blocks: Seq<FrameBlock>, i: int, frame: int) -> bool {
    0 <= i < blocks.len() && blocks[i].frame <= frame < blocks[i].frame + pow2(
        blocks[i].order as nat,
    )
}

proof fn lemma_blocks_ascend(
    blocks: Seq<FrameBlock>,
    start: int,
    end: int,
    max_order: nat,
    i: int,
    j: int,
)
    requires
        tiling(blocks, start, end, max_order),
        0 <= i <= j < blocks.len(),
    ensures
        i < j ==> blocks[i].frame + pow2(blocks[i].order as nat) <= blocks[j].frame,
        blocks[i].frame <= blocks[j].frame,
        blocks[j].frame + pow2(blocks[j].order as nat) <= end,
    decreases j,
{
    lemma_pow2_pos(blocks[j].order as nat);
    assert(best_order(blocks[j].frame as int, end, max_order, blocks[j].order as nat));
    if i < j {
        lemma_blocks_ascend(blocks, start, end, max_order, i, j - 1);
        lemma_pow2_pos(blocks[j - 1].order as nat);
        assert(blocks[j].frame == blocks[j - 1].frame + pow2(blocks[j - 1].order as nat));
    }
}

proof fn lemma_some_block(
    blocks: Seq<FrameBlock>,
    start: int,
    end: int,
    max_order: nat,
    frame: int,
    from: int,
)
    requires
        tiling(blocks, start, end, max_order),
        0 <= from < blocks.len(),
        blocks[from].frame <= frame < end,
    ensures
        exists|i: int| #[trigger] in_block(blocks, i, frame),
    decreases blocks.len() - from,
{
    if frame < blocks[from].frame + pow2(blocks[from].order as nat) {
        assert(in_block(blocks, from, frame));
    } else if from + 1 < blocks.len() {
        assert(blocks[from + 1].frame == blocks[from].frame + pow2(blocks[from].order as nat));
        lemma_some_block(blocks, start, end, max_order, frame, from + 1);
    }
}

/// Order of the smallest block that holds a number of frames, unless it would
/// be above the largest order.
pub fn order_for(num: usize, max_order: usize) -> (order: Option<usize>)
    requires
        max_order < 64,
    ensures
        match order {
            Some(o) => o <= max_order && num <= pow2(o as nat) && (o > 0 ==> pow2(
                (o - 1) as nat,
            ) < num),
            None => pow2(max_order as nat) < num,
        },
{
    let mut order: usize = 0;
    let mut len: u64 = 1;
    proof {
        vstd::arithmetic::power2::lemma2_to64();
    }
    while len < num as u64
        invariant
            order <= max_order,
            max_order < 64,
            len == pow2(order as nat),
            order > 0 ==> pow2((order - 1) as nat) < num,
        decreases max_order - order,
    {
        if order == max_order {
            return None;
        }
        proof {
            lemma_pow2_unfold((order + 1) as nat);
            lemma_order_bound((order + 1) as nat);
        }
        len = len * 2;
        order = order + 1;
    }
    Some(order)
}

proof fn lemma_order_bound(order: nat)
    requires
        order < 64,
    ensures
        pow2(order) <= 0x8000_0000_0000_0000,
{
    vstd::arithmetic::power2::lemma2_to64();
    vstd::arithmetic::power2::lemma2_to64_rest();
    if order < 63 {
        lemma_pow2_strictly_increases(order, 63);
    }
}

} // verus!
