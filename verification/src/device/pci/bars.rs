//! Base address registers of PCI functions.

use super::config::{PciBdf, PciConfigAccess, space_of};
use crate::device::mmio::word_at;
use crate::interrupt::IrqError;
use vstd::arithmetic::power2::pow2;
use vstd::prelude::*;

verus! {

const PCI_HEADER_TYPE: u16 = 0x0e;

const PCI_BAR0: u16 = 0x10;

const PCI_BAR_MEM_PREFETCHABLE: u32 = 0x8;

/// Compact BAR layout summary for one PCI function.
#[derive(Debug, Clone, Copy, PartialEq, Eq, Structural)]
pub struct PciBarSummary {
    pub bar_count: usize,
    pub present_mask: usize,
    pub io_mask: usize,
    pub mmio64_mask: usize,
    pub prefetchable_mask: usize,
}

/// How many BARs a header of this type has.
pub open spec fn bar_count_of(space: Seq<u8>) -> Option<int> {
    let header_type = space[0x0e] & 0x7f;
    if header_type == 0 {
        Some(6)
    } else if header_type == 1 {
        Some(2)
    } else {
        None
    }
}

/// The register of a BAR.
pub open spec fn bar_low(space: Seq<u8>, index: int) -> u32 {
    word_at(space, 0x10 + 4 * index)
}

pub open spec fn bar_is_io(space: Seq<u8>, index: int) -> bool {
    bar_low(space, index) & 1 != 0
}

/// A memory BAR that takes up the next register too.
pub open spec fn bar_is_wide(space: Seq<u8>, index: int) -> bool {
    bar_low(space, index) != 0 && !bar_is_io(space, index) && (bar_low(space, index) >> 1) & 3 == 2
}

/// Whether a BAR begins at a register: the second half of a wide BAR is none.
pub open spec fn bar_begins(space: Seq<u8>, index: int) -> bool
    decreases index,
{
    index <= 0 || !(bar_begins(space, index - 1) && bar_is_wide(space, index - 1))
}

pub open spec fn bar_present(space: Seq<u8>, index: int) -> bool {
    bar_begins(space, index) && bar_low(space, index) != 0
}

pub open spec fn bar_prefetchable(space: Seq<u8>, index: int) -> bool {
    bar_present(space, index) && !bar_is_io(space, index) && bar_low(space, index) & 8 != 0
}

/// Bits of the registers that begin a BAR that is in use.
pub open spec fn present_bit(space: Seq<u8>) -> spec_fn(int) -> bool {
    |i: int| bar_present(space, i)
}

/// Bits of the registers that begin an I/O BAR.
pub open spec fn io_bit(space: Seq<u8>) -> spec_fn(int) -> bool {
    |i: int| bar_present(space, i) && bar_is_io(space, i)
}

/// Bits of the registers that begin a wide BAR.
pub open spec fn wide_bit(space: Seq<u8>) -> spec_fn(int) -> bool {
    |i: int| bar_present(space, i) && bar_is_wide(space, i)
}

/// Bits of the last register of every prefetchable memory BAR.
pub open spec fn prefetch_bit(space: Seq<u8>, count: int) -> spec_fn(int) -> bool {
    |i: int|
        (i < count && bar_prefetchable(space, i) && !bar_is_wide(space, i)) || (0 < i
            && bar_prefetchable(space, i - 1) && bar_is_wide(space, i - 1))
}

/// The number whose bits below `len` are these.
pub open spec fn mask_of(bit: spec_fn(int) -> bool, len: int) -> int
    decreases len,
{
    if len <= 0 {
        0
    } else {
        mask_of(bit, len - 1) + if bit(len - 1) {
            pow2((len - 1) as nat) as int
        } else {
            0
        }
    }
}

/// What a summary of the BARs says. A header without BARs is all zeros.
pub open spec fn bar_summary_matches(space: Seq<u8>, summary: PciBarSummary) -> bool {
    match bar_count_of(space) {
        None => summary == PciBarSummary {
            bar_count: 0,
            present_mask: 0,
            io_mask: 0,
            mmio64_mask: 0,
            prefetchable_mask: 0,
        },
        Some(count) => {
            &&& summary.bar_count == count
            &&& summary.present_mask == mask_of(present_bit(space), count)
            &&& summary.io_mask == mask_of(io_bit(space), count)
            &&& summary.mmio64_mask == mask_of(wide_bit(space), count)
            &&& summary.prefetchable_mask == mask_of(prefetch_bit(space, count), count + 1)
        },
    }
}

fn bar_count<A: PciConfigAccess>(access: &A, bdf: PciBdf) -> (count: Option<usize>)
    requires
        access.wf(),
    ensures
        match count {
            Some(n) => bar_count_of(space_of(access.spaces(), bdf)) == Some(n as int) && n <= 6,
            None => bar_count_of(space_of(access.spaces(), bdf)) is None,
        },
{
    let header_type: u8 = access.read_u8(bdf, PCI_HEADER_TYPE) & 0x7f;
    match header_type {
        0x00 => Some(6),
        0x01 => Some(2),
        _ => None,
    }
}

proof fn lemma_mask_bound(bit: spec_fn(int) -> bool, len: int)
    requires
        0 <= len <= 8,
    ensures
        0 <= mask_of(bit, len) < pow2(len as nat),
    decreases len,
{
    vstd::arithmetic::power2::lemma2_to64();
    if len > 0 {
        lemma_mask_bound(bit, len - 1);
        vstd::arithmetic::power2::lemma_pow2_unfold(len as nat);
    }
}

fn bit_value(index: usize) -> (value: usize)
    requires
        index <= 7,
    ensures
        value == pow2(index as nat),
        value <= 128,
{
    proof {
        vstd::arithmetic::power2::lemma2_to64();
        vstd::bits::lemma_usize_shl_is_mul(1, index);
    }
    1usize << index
}

/// Walks over the BARs and notes what each one is.
pub fn summarize_bars<A: PciConfigAccess>(access: &A, bdf: PciBdf) -> (summary: PciBarSummary)
    requires
        access.wf(),
    ensures
        bar_summary_matches(space_of(access.spaces(), bdf), summary),
{
    let ghost space = space_of(access.spaces(), bdf);
    let mut summary = PciBarSummary {
        bar_count: 0,
        present_mask: 0,
        io_mask: 0,
        mmio64_mask: 0,
        prefetchable_mask: 0,
    };
    let bar_count: usize = match bar_count(access, bdf) {
        Some(count) => count,
        None => {
            return summary;
        },
    };
    summary.bar_count = bar_count;
    let mut index: usize = 0;
    while index < bar_count
        invariant
            access.wf(),
            space == space_of(access.spaces(), bdf),
            bar_count <= 6,
            index <= bar_count + 1,
            summary.bar_count == bar_count,
            bar_begins(space, index as int),
            index == bar_count + 1 ==> !bar_begins(space, bar_count as int),
            summary.present_mask == mask_of(present_bit(space), index as int),
            summary.io_mask == mask_of(io_bit(space), index as int),
            summary.mmio64_mask == mask_of(wide_bit(space), index as int),
            summary.prefetchable_mask == mask_of(
                prefetch_bit(space, bar_count as int),
                index as int,
            ),
        decreases bar_count + 1 - index,
    {
        let ghost at = index as int;
        proof {
            lemma_mask_bound(present_bit(space), at);
            lemma_mask_bound(io_bit(space), at);
            lemma_mask_bound(wide_bit(space), at);
            lemma_mask_bound(prefetch_bit(space, bar_count as int), at);
            vstd::arithmetic::power2::lemma2_to64();
        }
        let offset: u16 = PCI_BAR0 + (index as u16) * 4;
        let low: u32 = access.read_u32(bdf, offset);
        assert(low == bar_low(space, at));
        if low == 0 {
            index = index + 1;
        } else {
            let bit: usize = bit_value(index);
            summary.present_mask = summary.present_mask + bit;
            if low & 0x1 != 0 {
                summary.io_mask = summary.io_mask + bit;
                index = index + 1;
            } else {
                let bar_type: u32 = (low >> 1) & 0x3;
                if bar_type == 2 {
                    summary.mmio64_mask = summary.mmio64_mask + bit;
                    index = index + 2;
                    assert(!bar_begins(space, at + 1));
                    assert(bar_begins(space, at + 2));
                    assert(mask_of(present_bit(space), at + 2) == mask_of(
                        present_bit(space),
                        at + 1,
                    ));
                    assert(mask_of(io_bit(space), at + 2) == mask_of(io_bit(space), at + 1));
                    assert(mask_of(wide_bit(space), at + 2) == mask_of(wide_bit(space), at + 1));
                } else {
                    index = index + 1;
                }
                if low & PCI_BAR_MEM_PREFETCHABLE != 0 {
                    let last: usize = bit_value(index - 1);
                    summary.prefetchable_mask = summary.prefetchable_mask + last;
                }
            }
        }
        proof {
            assert(mask_of(prefetch_bit(space, bar_count as int), at + 1) == mask_of(
                prefetch_bit(space, bar_count as int),
                at,
            ) + if bar_prefetchable(space, at) && !bar_is_wide(space, at) {
                pow2(at as nat) as int
            } else {
                0
            });
        }
    }
    proof {
        if index == bar_count {
            assert(!prefetch_bit(space, bar_count as int)(bar_count as int));
        }
    }
    summary
}

/// Physical base of a memory BAR.
pub open spec fn bar_base(space: Seq<u8>, index: u8) -> Result<int, IrqError> {
    let low = bar_low(space, index as int);
    if index >= 6 {
        Err(IrqError::InvalidParameter)
    } else if low & 1 != 0 {
        Err(IrqError::NotSupported)
    } else if (low >> 1) & 3 == 0 {
        Ok(low - low % 16)
    } else if (low >> 1) & 3 == 2 {
        let base = low - low % 16 + 0x1_0000_0000 * bar_low(space, index + 1);
        if index >= 5 || base > usize::MAX {
            Err(IrqError::InvalidParameter)
        } else {
            Ok(base)
        }
    } else {
        Err(IrqError::NotSupported)
    }
}

/// Reads the physical base of a memory BAR.
pub fn read_bar<A: PciConfigAccess>(access: &A, bdf: PciBdf, index: u8) -> (result: Result<
    usize,
    IrqError,
>)
    requires
        access.wf(),
    ensures
        match result {
            Ok(base) => bar_base(space_of(access.spaces(), bdf), index) == Ok::<int, IrqError>(
                base as int,
            ),
            Err(error) => bar_base(space_of(access.spaces(), bdf), index) == Err::<int, IrqError>(
                error,
            ),
        },
{
    if index >= 6 {
        return Err(IrqError::InvalidParameter);
    }
    let offset: u16 = PCI_BAR0 + (index as u16) * 4;
    let low: u32 = access.read_u32(bdf, offset);
    if low & 0x1 != 0 {
        return Err(IrqError::NotSupported);
    }
    let bar_type: u32 = (low >> 1) & 0x3;
    let base: u32 = low - low % 16;
    match bar_type {
        0 => Ok(base as usize),
        2 => {
            if index >= 5 {
                return Err(IrqError::InvalidParameter);
            }
            let high: u32 = access.read_u32(bdf, offset + 4);
            let wide: u64 = base as u64 + 0x1_0000_0000 * (high as u64);
            if wide > usize::MAX as u64 {
                return Err(IrqError::InvalidParameter);
            }
            Ok(wide as usize)
        },
        _ => Err(IrqError::NotSupported),
    }
}

} // verus!
