//! What the PCI code guarantees, stated over the bytes of a configuration
//! space.

use super::bars::{
    bar_base, bar_begins, bar_count_of, bar_is_wide, bar_low, bar_summary_matches, io_bit, mask_of,
    prefetch_bit, present_bit, wide_bit, PciBarSummary,
};
use super::cap::{
    all_off, capability, capability_summary_of, consecutive, count_mode, find_capability, intx_off,
    intx_on, list_head, list_next, mode_of, msi_of, msi_on, msix_masked, msix_of, msix_on,
    table_words, PciCapabilityBits, PciInterruptMode, PciMsiCapability, PciMsixCapability,
};
use super::config::{put_space, space_of, PciBdf, Spaces};
use super::ecam::{ecam_len, PciEcamRegion};
use super::function::{
    early_refusal, hint_of, IrqMessageBlock, PciExecuteOutcome, PciExecuteStep, PciFunction,
    PciFunctionExecuteGuard,
};
use super::interrupt::{msi_request, msix_request};
use super::object::{
    PciAbi, PciFunctionInfo, PciInterruptBindArgs, PciInvokeError, PciPublishEvent, PciPublishStep,
    PciReply, PciSyscallCodec,
};
use super::scan::{answers, functions_of_bus, functions_of_device, further_functions};
use crate::device::mmio::{
    half_at, law_half_reads_back, law_word_reads_back, with_half, with_word, word_at, MmioAccess,
};
use crate::interrupt::object::{sessions_made, IrqAbi};
use crate::interrupt::{IrqError, MessageIrqDescriptor, MessageIrqKind};
use crate::object::{Handle, ObjectError};
use vstd::arithmetic::power2::pow2;
use vstd::prelude::*;

verus! {

/// Whether the bit of a mask with a number is set.
pub open spec fn set_in(mask: int, bit: int) -> bool {
    (mask / pow2(bit as nat) as int) % 2 == 1
}

/// A device function has six BARs and a bridge two. The topmost bit of the
/// header type only says that a device has several functions.
pub proof fn law_header_decides_the_bars(space: Seq<u8>)
    ensures
        space[14] % 128 == 0 ==> bar_count_of(space) == Some(6int),
        space[14] % 128 == 1 ==> bar_count_of(space) == Some(2int),
        space[14] % 128 > 1 ==> bar_count_of(space) is None,
{
    let header = space[14];
    assert(header & 0x7f == header % 128) by (bit_vector);
}

/// The registers of the BARs follow one another from byte 16 on, lowest byte
/// first.
pub proof fn law_bars_follow_each_other(space: Seq<u8>, index: int)
    ensures
        bar_low(space, index) == space[16 + 4 * index] + 0x100 * space[17 + 4 * index] + 0x1_0000
            * space[18 + 4 * index] + 0x100_0000 * space[19 + 4 * index],
{
}

proof fn lemma_bar_bits(low: u32)
    ensures
        low & 1 != 0 <==> low % 2 == 1,
        low & 1 == 0 && (low >> 1) & 3 == 2 <==> low % 8 == 4,
        low & 1 == 0 && (low >> 1) & 3 == 0 <==> low % 8 == 0,
        low & 8 != 0 <==> low % 16 >= 8,
{
    assert(low & 1 != 0 <==> low % 2 == 1) by (bit_vector);
    assert(low & 1 == 0 && (low >> 1) & 3 == 2 <==> low % 8 == 4) by (bit_vector);
    assert(low & 1 == 0 && (low >> 1) & 3 == 0 <==> low % 8 == 0) by (bit_vector);
    assert(low & 8 != 0 <==> low % 16 >= 8) by (bit_vector);
}

proof fn lemma_mask(bit: spec_fn(int) -> bool, len: int, i: int)
    requires
        0 <= i,
    ensures
        0 <= mask_of(bit, len),
        0 <= len ==> mask_of(bit, len) < pow2(len as nat),
        set_in(mask_of(bit, len), i) <==> i < len && bit(i),
    decreases len,
{
    vstd::arithmetic::power2::lemma_pow2_pos(i as nat);
    if len <= 0 {
        if len == 0 {
            vstd::arithmetic::power2::lemma_pow2_pos(0);
        }
        vstd::arithmetic::div_mod::lemma_basic_div(0, pow2(i as nat) as int);
    } else {
        let rest = mask_of(bit, len - 1);
        let top = pow2((len - 1) as nat) as int;
        lemma_mask(bit, len - 1, i);
        vstd::arithmetic::power2::lemma_pow2_unfold(len as nat);
        vstd::arithmetic::power2::lemma_pow2_pos((len - 1) as nat);
        let unit = pow2(i as nat) as int;
        if i < len - 1 {
            vstd::arithmetic::power2::lemma_pow2_adds(i as nat, (len - 1 - i) as nat);
            vstd::arithmetic::power2::lemma_pow2_unfold((len - 1 - i) as nat);
            let half = pow2((len - 2 - i) as nat) as int;
            assert(top == unit * (2 * half));
            vstd::arithmetic::div_mod::lemma_hoist_over_denominator(rest, 2 * half, unit as nat);
            assert(rest + unit * (2 * half) == rest + (2 * half) * unit) by (nonlinear_arith);
            assert((rest + top) / unit == rest / unit + 2 * half);
        } else if i == len - 1 {
            if bit(i) {
                vstd::arithmetic::div_mod::lemma_fundamental_div_mod_converse(
                    rest + top,
                    unit,
                    1,
                    rest,
                );
            } else {
                vstd::arithmetic::div_mod::lemma_basic_div(rest, unit);
            }
        } else {
            vstd::arithmetic::power2::lemma_pow2_strictly_increases((len - 1) as nat, i as nat);
            vstd::arithmetic::power2::lemma_pow2_adds(len as nat, (i - len) as nat);
            vstd::arithmetic::power2::lemma_pow2_pos((i - len) as nat);
            assert(pow2(len as nat) <= unit) by (nonlinear_arith)
                requires
                    unit == pow2(len as nat) * pow2((i - len) as nat),
                    pow2((i - len) as nat) >= 1,
            ;
            vstd::arithmetic::div_mod::lemma_basic_div(mask_of(bit, len), unit);
        }
    }
}

/// A register that is zero is no BAR, and one that follows a 64-bit BAR is its
/// upper half. Every other register is a BAR, and its lowest bits say of which
/// kind.
pub proof fn law_summary_tells_the_bars(space: Seq<u8>, summary: PciBarSummary, i: int)
    requires
        bar_summary_matches(space, summary),
        0 <= i < summary.bar_count,
    ensures
        ({
            let present = set_in(summary.present_mask as int, i);
            let low = bar_low(space, i);
            &&& i == 0 ==> (present <==> low != 0)
            &&& i > 0 ==> (present <==> low != 0 && !set_in(summary.mmio64_mask as int, i - 1))
            &&& set_in(summary.io_mask as int, i) <==> present && low % 2 == 1
            &&& set_in(summary.mmio64_mask as int, i) <==> present && low % 8 == 4
        }),
{
    let count = summary.bar_count as int;
    lemma_bar_bits(bar_low(space, i));
    lemma_mask(present_bit(space), count, i);
    lemma_mask(io_bit(space), count, i);
    lemma_mask(wide_bit(space), count, i);
    if i > 0 {
        lemma_mask(wide_bit(space), count, i - 1);
        assert(bar_begins(space, i) <==> !(bar_begins(space, i - 1) && bar_is_wide(space, i - 1)));
    }
}

/// A prefetchable memory BAR is marked at its own number, and one of 64 bits at
/// the number of its upper half.
pub proof fn law_summary_tells_prefetchable_bars(
    space: Seq<u8>,
    summary: PciBarSummary,
    i: int,
)
    requires
        bar_summary_matches(space, summary),
        0 <= i < summary.bar_count,
        set_in(summary.present_mask as int, i),
    ensures
        ({
            let low = bar_low(space, i);
            let prefetchable = low % 2 == 0 && low % 16 >= 8;
            &&& low % 8 == 4 ==> (set_in(summary.prefetchable_mask as int, i + 1) <==> prefetchable)
            &&& low % 8 != 4 ==> (set_in(summary.prefetchable_mask as int, i) <==> prefetchable)
        }),
{
    let count = summary.bar_count as int;
    lemma_bar_bits(bar_low(space, i));
    lemma_mask(present_bit(space), count, i);
    lemma_mask(prefetch_bit(space, count), count + 1, i);
    lemma_mask(prefetch_bit(space, count), count + 1, i + 1);
    assert(bar_begins(space, i + 1) <==> !(bar_begins(space, i) && bar_is_wide(space, i)));
    if i > 0 {
        assert(bar_begins(space, i) <==> !(bar_begins(space, i - 1) && bar_is_wide(space, i - 1)));
    }
}

/// A 32-bit memory BAR is based at its register without the lowest four bits. A
/// 64-bit one has the upper half of its base in the next register. There is no
/// base of an I/O BAR, nor of one past the last register.
pub proof fn law_bar_is_based_at_its_registers(space: Seq<u8>, index: u8)
    requires
        usize::MAX == u64::MAX,
    ensures
        ({
            let low = bar_low(space, index as int);
            let high = bar_low(space, index + 1);
            &&& index >= 6 ==> bar_base(space, index) == Err::<int, IrqError>(
                IrqError::InvalidParameter,
            )
            &&& index < 6 && low % 8 == 0 ==> bar_base(space, index) == Ok::<int, IrqError>(
                (low / 16) * 16int,
            )
            &&& index < 5 && low % 8 == 4 ==> bar_base(space, index) == Ok::<int, IrqError>(
                (low / 16) * 16 + high * 0x1_0000_0000int,
            )
            &&& index == 5 && low % 8 == 4 ==> bar_base(space, index) == Err::<int, IrqError>(
                IrqError::InvalidParameter,
            )
            &&& index < 6 && low % 4 != 0 ==> bar_base(space, index) == Err::<int, IrqError>(
                IrqError::NotSupported,
            )
        }),
{
    lemma_bar_bits(bar_low(space, index as int));
}

/// The configuration spaces of a region lie one after another, each of 4 KiB:
/// those of a device together, then those of the next device, then those of the
/// next bus.
pub proof fn law_spaces_lie_in_order<M: MmioAccess>(
    region: PciEcamRegion<M>,
    bdf: PciBdf,
    offset: u16,
)
    requires
        region.holds(bdf),
        offset < 4096,
    ensures
        ({
            let at = region.location(bdf, offset);
            &&& at is Some
            &&& bdf == (PciBdf {
                segment: region.segment_group,
                bus: region.bus_start,
                device: 0,
                function: 0,
            }) ==> at->0 == offset
            &&& bdf.function > 0 ==> at->0 == region.location(
                PciBdf { function: (bdf.function - 1) as u8, ..bdf },
                offset,
            )->0 + 0x1000
            &&& bdf.device > 0 && bdf.function == 0 ==> at->0 == region.location(
                PciBdf { device: (bdf.device - 1) as u8, function: 7, ..bdf },
                offset,
            )->0 + 0x1000
            &&& bdf.bus > region.bus_start && bdf.device == 0 && bdf.function == 0 ==> at->0
                == region.location(
                PciBdf { bus: (bdf.bus - 1) as u8, device: 31, function: 7, ..bdf },
                offset,
            )->0 + 0x1000
        }),
{
}

/// A region takes one MiB for each of its buses.
pub proof fn law_each_bus_takes_a_mebibyte(first: u8, last: u8)
    requires
        first <= last,
    ensures
        ecam_len(first, first) == 1024 * 1024,
        first < last ==> ecam_len(first, last) == ecam_len(first, (last - 1) as u8) + 1024 * 1024,
{
}

/// Whether the places of a capability list up to some capability are these: the
/// pointer at byte 52 names the first, and the second byte of each the next.
pub open spec fn listed(space: Seq<u8>, places: Seq<u8>) -> bool {
    &&& places.len() > 0
    &&& places[0] == space[52] / 4 * 4
    &&& forall|k: int| 0 <= k < places.len() ==> #[trigger] places[k] >= 64
    &&& forall|k: int|
        0 < k < places.len() ==> #[trigger] places[k] == space[places[k - 1] + 1] / 4 * 4
}

proof fn lemma_link(byte: u8)
    ensures
        byte & 0xfc == byte / 4 * 4,
{
    assert(byte & 0xfc == byte / 4 * 4) by (bit_vector);
}

proof fn lemma_walk_reaches(space: Seq<u8>, id: u8, places: Seq<u8>, from: int, remaining: int)
    requires
        listed(space, places),
        0 <= from < places.len(),
        places.len() - from <= remaining,
        forall|k: int| 0 <= k < places.len() - 1 ==> space[#[trigger] places[k] as int] != id,
        space[places[places.len() - 1] as int] == id,
    ensures
        find_capability(space, id, Some(places[from] as u16), remaining) == Some(
            places[places.len() - 1] as u16,
        ),
    decreases places.len() - from,
{
    let here = places[from];
    assert(here >= 64);
    if from < places.len() - 1 {
        lemma_link(space[here + 1]);
        let next = places[from + 1];
        assert(next == space[here + 1] / 4 * 4);
        assert(list_next(space, here as u16) == Some(next as u16));
        lemma_walk_reaches(space, id, places, from + 1, remaining - 1);
    }
}

/// The capability that is found is the first of the list with the identifier,
/// among the forty-eight that a space has room for.
pub proof fn law_first_listed_capability_is_found(space: Seq<u8>, id: u8, places: Seq<u8>)
    requires
        half_at(space, 6) / 16 % 2 == 1,
        listed(space, places),
        places.len() <= 48,
        forall|k: int| 0 <= k < places.len() - 1 ==> space[#[trigger] places[k] as int] != id,
        space[places[places.len() - 1] as int] == id,
    ensures
        capability(space, id) == Some(places[places.len() - 1] as u16),
{
    let status = half_at(space, 6);
    assert(status & 0x10 != 0 <==> status / 16 % 2 == 1) by (bit_vector);
    lemma_link(space[52]);
    assert(list_head(space) == Some(places[0] as u16));
    lemma_walk_reaches(space, id, places, 0, 48);
}

/// A function whose status says that it has no list has no capability.
pub proof fn law_no_list_no_capability(space: Seq<u8>, id: u8)
    requires
        half_at(space, 6) / 16 % 2 == 0,
    ensures
        capability(space, id) is None,
{
    let status = half_at(space, 6);
    assert(status & 0x10 != 0 <==> status / 16 % 2 == 1) by (bit_vector);
}

/// MSI is the capability with the identifier 5. Its control register tells how
/// many messages it can send, a power of two, whether it takes 64-bit addresses
/// and whether its messages can be masked.
pub proof fn law_msi_is_read_from_its_control(space: Seq<u8>)
    ensures
        msi_of(space) is Some <==> capability(space, 5) is Some,
        msi_of(space) matches Some(msi) ==> {
            let control = space[msi.offset + 2] + 0x100 * space[msi.offset + 3];
            &&& Some(msi.offset) == capability(space, 5)
            &&& msi.max_messages == pow2((control / 2 % 8) as nat)
            &&& msi.supports_64bit <==> control / 128 % 2 == 1
            &&& msi.supports_masking <==> control / 256 % 2 == 1
        },
{
    if let Some(offset) = capability(space, 5) {
        let control = half_at(space, offset + 2);
        assert((control & 0xe) / 2 == control / 2 % 8) by (bit_vector);
        assert(control & 0x80 != 0 <==> control / 128 % 2 == 1) by (bit_vector);
        assert(control & 0x100 != 0 <==> control / 256 % 2 == 1) by (bit_vector);
        vstd::arithmetic::power2::lemma2_to64();
        let exponent = control / 2 % 8;
        assert(pow2(exponent as nat) <= 128);
    }
}

/// MSI-X is the capability with the identifier 17. The lowest eleven bits of
/// its control register are one less than the size of the table, and the two
/// words after it name the BARs of the table and of the pending bits in their
/// lowest three bits and the offsets there in the others.
pub proof fn law_msix_is_read_from_its_registers(space: Seq<u8>)
    ensures
        msix_of(space) is Some <==> capability(space, 17) is Some,
        msix_of(space) matches Some(msix) ==> {
            let control = space[msix.offset + 2] + 0x100 * space[msix.offset + 3];
            &&& Some(msix.offset) == capability(space, 17)
            &&& msix.table_size == control % 2048 + 1
            &&& msix.table_bir < 8
            &&& msix.table_offset % 8 == 0
            &&& msix.table_bir + msix.table_offset == word_at(space, msix.offset + 4)
            &&& msix.pba_bir < 8
            &&& msix.pba_offset % 8 == 0
            &&& msix.pba_bir + msix.pba_offset == word_at(space, msix.offset + 8)
        },
{
}

/// A function is served by MSI-X where it can, else by MSI, else by its pin.
pub proof fn law_best_mode_is_taken(space: Seq<u8>)
    ensures
        mode_of(space) == PciInterruptMode::Msix <==> capability(space, 17) is Some,
        mode_of(space) == PciInterruptMode::Msi <==> capability(space, 17) is None && capability(
            space,
            5,
        ) is Some,
        mode_of(space) == PciInterruptMode::Intx <==> capability(space, 17) is None && capability(
            space,
            5,
        ) is None,
{
}

/// Each function is counted in one of the three modes.
pub proof fn law_each_function_has_one_mode(spaces: Spaces, found: Seq<PciBdf>, len: int)
    requires
        0 <= len <= found.len(),
    ensures
        count_mode(spaces, found, PciInterruptMode::Msix, len) + count_mode(
            spaces,
            found,
            PciInterruptMode::Msi,
            len,
        ) + count_mode(spaces, found, PciInterruptMode::Intx, len) == len,
    decreases len,
{
    if len > 0 {
        law_each_function_has_one_mode(spaces, found, len - 1);
    }
}

/// The pin of a function is off exactly while bit 10 of its command register is
/// set. Switching it leaves every other bit of the space.
pub proof fn law_pin_is_switched(space: Seq<u8>)
    requires
        space.len() == 4096,
    ensures
        half_at(intx_off(space), 4) / 1024 % 2 == 1,
        half_at(intx_on(space), 4) / 1024 % 2 == 0,
        half_at(intx_off(space), 4) - half_at(intx_on(space), 4) == 1024,
        half_at(space, 4) == half_at(intx_off(space), 4) || half_at(space, 4) == half_at(
            intx_on(space),
            4,
        ),
        forall|i: int|
            0 <= i < 4096 && i != 4 && i != 5 ==> intx_off(space)[i] == #[trigger] space[i]
                && intx_on(space)[i] == space[i],
{
    let command = half_at(space, 4);
    assert((command | 0x400) / 1024 % 2 == 1) by (bit_vector);
    assert((command & 0xfbff) / 1024 % 2 == 0) by (bit_vector);
    assert((command | 0x400) - (command & 0xfbff) == 1024) by (bit_vector);
    assert(command == command | 0x400 || command == command & 0xfbff) by (bit_vector);
    law_half_reads_back(space, 4, command | 0x400);
    law_half_reads_back(space, 4, command & 0xfbff);
}

proof fn lemma_stored_half(bytes: Seq<u8>, at: int, value: u16, other: int)
    requires
        0 <= at,
        at + 2 <= bytes.len(),
        0 <= other,
        other + 4 <= bytes.len(),
    ensures
        with_half(bytes, at, value).len() == bytes.len(),
        half_at(with_half(bytes, at, value), at) == value,
        other + 4 <= at || at + 2 <= other ==> word_at(with_half(bytes, at, value), other)
            == word_at(bytes, other),
        other + 2 <= at || at + 2 <= other ==> half_at(with_half(bytes, at, value), other)
            == half_at(bytes, other),
{
}

proof fn lemma_stored_word(bytes: Seq<u8>, at: int, value: u32, other: int)
    requires
        0 <= at,
        at + 4 <= bytes.len(),
        0 <= other,
        other + 4 <= bytes.len(),
    ensures
        with_word(bytes, at, value).len() == bytes.len(),
        word_at(with_word(bytes, at, value), at) == value,
        other + 4 <= at || at + 4 <= other ==> word_at(with_word(bytes, at, value), other)
            == word_at(bytes, other),
        other + 2 <= at || at + 4 <= other ==> half_at(with_word(bytes, at, value), other)
            == half_at(bytes, other),
{
    law_word_reads_back(bytes, at, value);
}

/// A function in MSI mode sends the message that it was given, under as many
/// vectors as it was given, unmasked, and its pin is off.
pub proof fn law_msi_sends_its_message(
    space: Seq<u8>,
    msi: PciMsiCapability,
    base: MessageIrqDescriptor,
    exponent: u16,
)
    requires
        space.len() == 4096,
        msi.wf(),
        exponent < 8,
    ensures
        ({
            let after = msi_on(space, msi, base, exponent);
            let control = half_at(after, msi.offset + 2);
            let data_at = if msi.supports_64bit {
                msi.offset + 12
            } else {
                msi.offset + 8
            };
            &&& control % 2 == 1
            &&& control / 16 % 8 == exponent
            &&& control / 128 == half_at(space, msi.offset + 2) / 128
            &&& word_at(after, msi.offset + 4) == base.address_lo
            &&& msi.supports_64bit ==> word_at(after, msi.offset + 8) == base.address_hi
            &&& half_at(after, data_at) == base.data % 0x1_0000
            &&& msi.supports_masking ==> word_at(after, data_at + 4) == 0
            &&& half_at(after, 4) / 1024 % 2 == 1
        }),
{
    let control = half_at(space, msi.offset + 2);
    let written = control & 0xff8f | (exponent << 4) | 1;
    assert(written % 2 == 1 && written / 16 % 8 == exponent && written / 128 == control / 128)
        by (bit_vector)
        requires
            written == control & 0xff8f | (exponent << 4) | 1,
            exponent < 8,
    ;
    let at = msi.offset as int;
    let low = with_word(space, at + 4, base.address_lo);
    lemma_stored_word(space, at + 4, base.address_lo, 4);
    let high = if msi.supports_64bit {
        with_word(low, at + 8, base.address_hi)
    } else {
        low
    };
    let data_at = if msi.supports_64bit {
        at + 12
    } else {
        at + 8
    };
    let value = (base.data % 0x1_0000) as u16;
    let data = with_half(high, data_at, value);
    let unmasked = if msi.supports_masking {
        with_word(data, data_at + 4, 0)
    } else {
        data
    };
    let armed = with_half(unmasked, at + 2, written);
    let command = half_at(armed, 4);
    assert((command | 0x400) / 1024 % 2 == 1) by (bit_vector);
    assert(high.len() == space.len());
    assert(word_at(high, at + 4) == base.address_lo) by {
        lemma_stored_word(low, at + 8, base.address_hi, at + 4);
    }
    assert(msi.supports_64bit ==> word_at(high, at + 8) == base.address_hi) by {
        lemma_stored_word(low, at + 8, base.address_hi, 4);
    }
    lemma_stored_half(high, data_at, value, at + 4);
    lemma_stored_half(high, data_at, value, at + 8);
    assert(unmasked.len() == space.len());
    assert(half_at(unmasked, data_at) == value) by {
        lemma_stored_word(data, data_at + 4, 0, data_at);
    }
    assert(msi.supports_masking ==> word_at(unmasked, data_at + 4) == 0) by {
        lemma_stored_word(data, data_at + 4, 0, 4);
    }
    lemma_stored_word(data, data_at + 4, 0, at + 4);
    lemma_stored_word(data, data_at + 4, 0, at + 8);
    lemma_stored_half(unmasked, at + 2, written, at + 4);
    lemma_stored_half(unmasked, at + 2, written, at + 8);
    lemma_stored_half(unmasked, at + 2, written, data_at);
    lemma_stored_half(unmasked, at + 2, written, data_at + 4);
    lemma_stored_half(armed, 4, command | 0x400, at + 2);
    lemma_stored_half(armed, 4, command | 0x400, at + 4);
    lemma_stored_half(armed, 4, command | 0x400, at + 8);
    lemma_stored_half(armed, 4, command | 0x400, data_at);
    lemma_stored_half(armed, 4, command | 0x400, data_at + 4);
}

/// While the table of a function is written its vectors are masked and it sends
/// nothing. Then they are unmasked and it sends, and its pin is off. The other
/// bits of its control register stay.
pub proof fn law_msix_is_silent_until_its_table_is_written(space: Seq<u8>, offset: u16)
    requires
        space.len() == 4096,
        0x40 <= offset < 0x100,
    ensures
        ({
            let before = half_at(space, offset + 2);
            let masked = half_at(msix_masked(space, offset), offset + 2);
            let on = msix_on(msix_masked(space, offset), offset, masked);
            &&& masked / 0x4000 == 1
            &&& masked % 0x4000 == before % 0x4000
            &&& half_at(on, offset + 2) / 0x4000 == 2
            &&& half_at(on, offset + 2) % 0x4000 == before % 0x4000
            &&& half_at(on, 4) / 1024 % 2 == 1
        }),
{
    let before = half_at(space, offset + 2);
    let masked = (before | 0x4000) & 0x7fff;
    let on = (masked | 0x8000) & 0xbfff;
    assert(masked / 0x4000 == 1 && masked % 0x4000 == before % 0x4000 && on / 0x4000 == 2 && on
        % 0x4000 == before % 0x4000) by (bit_vector)
        requires
            masked == (before | 0x4000) & 0x7fff,
            on == (masked | 0x8000) & 0xbfff,
    ;
    law_half_reads_back(space, offset + 2, masked);
    law_half_reads_back(msix_masked(space, offset), offset + 2, on);
    let command = half_at(space, 4);
    assert((command | 0x400) / 1024 % 2 == 1) by (bit_vector);
}

/// Each message takes up sixteen bytes of the table: the lower and the upper
/// half of its address, its data, and a control word that unmasks it.
pub proof fn law_table_holds_each_message(
    table: int,
    messages: Seq<MessageIrqDescriptor>,
    k: int,
)
    requires
        0 <= table,
        table + 16 * messages.len() <= usize::MAX,
        0 <= k < messages.len(),
    ensures
        ({
            let words = table_words(table, messages);
            &&& words.len() == 4 * messages.len()
            &&& words[4 * k].offset == table + 16 * k && words[4 * k].value == messages[k].address_lo
            &&& words[4 * k + 1].offset == table + 16 * k + 4 && words[4 * k + 1].value
                == messages[k].address_hi
            &&& words[4 * k + 2].offset == table + 16 * k + 8 && words[4 * k + 2].value
                == messages[k].data
            &&& words[4 * k + 3].offset == table + 16 * k + 12 && words[4 * k + 3].value == 0
        }),
{
}

/// Message interrupts are asked for in the number that was wanted and with the
/// hint that was given. A function without the capability cannot have them.
/// The messages of MSI all go to one processor, those of MSI-X may be spread.
pub proof fn law_wanted_messages_are_asked_for(
    spaces: Spaces,
    bdf: PciBdf,
    count: usize,
    hint: Option<usize>,
)
    ensures
        ({
            let space = space_of(spaces, bdf);
            let msi = msi_request(spaces, bdf, count, hint);
            let msix = msix_request(spaces, bdf, count, hint);
            let there = !(space[0] == 0xff && space[1] == 0xff);
            &&& !there ==> msi is Err && msi->Err_0 == IrqError::InvalidParameter
            &&& !there ==> msix is Err && msix->Err_0 == IrqError::InvalidParameter
            &&& (msi matches Ok(asked) ==> {
                &&& there
                &&& capability(space, 5) == Some(asked.0.offset)
                &&& 0 < count <= asked.0.max_messages
                &&& asked.1.kind == MessageIrqKind::Msi
                &&& asked.1.count == count
                &&& asked.1.target_cpu == hint
                &&& !asked.1.allow_spread
            })
            &&& (msix matches Ok(asked) ==> {
                &&& there
                &&& capability(space, 17) == Some(asked.0.offset)
                &&& 0 < count <= asked.0.table_size
                &&& asked.1.kind == MessageIrqKind::Msix
                &&& asked.1.count == count
                &&& asked.1.target_cpu == hint
                &&& asked.1.allow_spread
            })
            &&& there && capability(space, 5) is None ==> msi is Err && msi->Err_0
                == IrqError::NotSupported
            &&& there && capability(space, 17) is None ==> msix is Err && msix->Err_0
                == IrqError::NotSupported
            &&& there && capability(space, 17) is Some && 0 < count <= half_at(
                space,
                capability(space, 17)->0 + 2,
            ) % 2048 + 1 ==> msix is Ok
        }),
{
    if let Some(msi) = msi_of(space_of(spaces, bdf)) {
        if msi.supports(count) {
            let e = choose|e: nat| count == #[trigger] pow2(e);
            vstd::arithmetic::power2::lemma_pow2_pos(e);
        }
    }
}

/// A write to the space of one function leaves those of all others. A write to
/// a function that is not there is lost.
pub proof fn law_functions_keep_to_themselves(
    spaces: Spaces,
    bdf: PciBdf,
    space: Seq<u8>,
    other: PciBdf,
)
    ensures
        other != bdf ==> space_of(put_space(spaces, bdf, space), other) == space_of(spaces, other),
        spaces.contains_key(bdf) ==> space_of(put_space(spaces, bdf, space), bdf) == space,
        !spaces.contains_key(bdf) ==> put_space(spaces, bdf, space) == spaces,
        !spaces.contains_key(bdf) ==> forall|i: int|
            0 <= i < 4096 ==> #[trigger] space_of(spaces, bdf)[i] == 0xff,
{
}

proof fn lemma_further(spaces: Spaces, segment: u16, bus: u8, device: u8, limit: int, function: u8)
    requires
        limit <= 8,
    ensures
        further_functions(spaces, segment, bus, device, limit).contains(
            PciBdf { segment, bus, device, function },
        ) <==> 1 <= function < limit && half_at(
            space_of(spaces, PciBdf { segment, bus, device, function }),
            0,
        ) != 0xffff,
    decreases limit,
{
    if limit > 1 {
        lemma_further(spaces, segment, bus, device, limit - 1, function);
        let rest = further_functions(spaces, segment, bus, device, limit - 1);
        let last = PciBdf { segment, bus, device, function: (limit - 1) as u8 };
        let all = further_functions(spaces, segment, bus, device, limit);
        let sought = PciBdf { segment, bus, device, function };
        if rest.contains(sought) {
            let i = choose|i: int| 0 <= i < rest.len() && rest[i] == sought;
            assert(all[i] == sought);
        }
        if answers(spaces, last) {
            assert(all[rest.len() as int] == last);
        }
        if all.contains(sought) && sought != last {
            let i = choose|i: int| 0 <= i < all.len() && all[i] == sought;
            assert(rest[i] == sought);
        }
    }
}

/// A function of a device is found where its vendor is not all ones and the
/// first function of the device is there too. Past the first it is found only
/// where the header of the first says that there are several.
pub proof fn law_answering_functions_are_found(
    spaces: Spaces,
    segment: u16,
    bus: u8,
    device: u8,
    function: u8,
)
    ensures
        ({
            let bdf = PciBdf { segment, bus, device, function };
            let first = PciBdf { segment, bus, device, function: 0 };
            functions_of_device(spaces, segment, bus, device).contains(bdf) <==> {
                &&& function < 8
                &&& half_at(space_of(spaces, bdf), 0) != 0xffff
                &&& half_at(space_of(spaces, first), 0) != 0xffff
                &&& function > 0 ==> space_of(spaces, first)[14] >= 128
            }
        }),
{
    let bdf = PciBdf { segment, bus, device, function };
    let first = PciBdf { segment, bus, device, function: 0 };
    let header = space_of(spaces, first)[14];
    assert(header & 0x80 == 0 <==> header < 128) by (bit_vector);
    lemma_further(spaces, segment, bus, device, 8, function);
    let more = further_functions(spaces, segment, bus, device, 8);
    let all = functions_of_device(spaces, segment, bus, device);
    if answers(spaces, first) {
        assert(all[0] == first);
        if header >= 128 {
            if more.contains(bdf) {
                let i = choose|i: int| 0 <= i < more.len() && more[i] == bdf;
                assert(all[i + 1] == bdf);
            }
            if all.contains(bdf) && bdf != first {
                let i = choose|i: int| 0 <= i < all.len() && all[i] == bdf;
                assert(more[i - 1] == bdf);
            }
        }
    }
}

/// A silenced function sends no message and raises no pin.
pub proof fn law_silenced_function_sends_nothing(space: Seq<u8>)
    requires
        space.len() == 4096,
    ensures
        half_at(all_off(space), 4) / 1024 % 2 == 1,
        capability(space, 5) matches Some(at) ==> all_off(space)[at + 2] % 2 == 0,
        capability(space, 17) matches Some(at) ==> all_off(space)[at + 3] < 128,
{
    super::cap::law_all_off_is_silent(space);
    let after = all_off(space);
    let command = half_at(after, 4);
    assert(command & 0x400 != 0 ==> command / 1024 % 2 == 1) by (bit_vector);
    if let Some(at) = capability(space, 5) {
        let control = half_at(after, at + 2);
        assert(control & 0x1 == 0 ==> control % 2 == 0) by (bit_vector);
    }
    if let Some(at) = capability(space, 17) {
        let control = half_at(after, at + 2);
        assert(control & 0x8000 == 0 ==> control < 0x8000) by (bit_vector);
    }
}

/// What is known of a function is in the first bytes of its space: who made it and
/// which device it is, its revision and class, and its header type.
pub proof fn law_function_is_described_by_its_header(spaces: Spaces, bdf: PciBdf)
    ensures
        ({
            let info = PciFunctionInfo::of(spaces, bdf);
            let space = space_of(spaces, bdf);
            &&& info.bdf == bdf
            &&& info.vendor_id == space[0] + 0x100 * space[1]
            &&& info.device_id == space[2] + 0x100 * space[3]
            &&& info.revision_id == space[8]
            &&& info.prog_if == space[9]
            &&& info.subclass == space[10]
            &&& info.class_code == space[11]
            &&& info.header_type == space[14]
            &&& info.interrupt_mode == mode_of(space)
        }),
{
}

proof fn lemma_digits(low: int, rest: int, base: int)
    requires
        0 <= low < base,
        0 <= rest,
    ensures
        (low + rest * base) % base == low,
        (low + rest * base) / base == rest,
{
    vstd::arithmetic::div_mod::lemma_fundamental_div_mod_converse(
        low + rest * base,
        base,
        rest,
        low,
    );
}

/// The words of a function are its segment, its bus, device and function, its
/// vendor and device, its class from the revision upwards, and its header type.
#[verifier::spinoff_prover]
pub proof fn law_info_words(info: PciFunctionInfo)
    requires
        usize::MAX == u64::MAX,
    ensures
        ({
            let told = PciSyscallCodec::info_words(info);
            &&& told.v0 == info.bdf.segment
            &&& told.v1 / 0x1_0000 == info.bdf.bus
            &&& told.v1 / 0x100 % 0x100 == info.bdf.device
            &&& told.v1 % 0x100 == info.bdf.function
            &&& told.v2 % 0x1_0000 == info.vendor_id
            &&& told.v2 / 0x1_0000 == info.device_id
            &&& told.v3 % 0x100 == info.revision_id
            &&& told.v3 / 0x100 % 0x100 == info.prog_if
            &&& told.v3 / 0x1_0000 % 0x100 == info.subclass
            &&& told.v3 / 0x100_0000 == info.class_code
            &&& told.v4 == info.header_type
        }),
{
    let told = PciSyscallCodec::info_words(info);
    let bdf = info.bdf;
    let place = bdf.device + bdf.bus * 0x100;
    assert(told.v1 == bdf.function + place * 0x100);
    lemma_digits(bdf.function as int, place, 0x100);
    lemma_digits(bdf.device as int, bdf.bus as int, 0x100);
    assert(told.v1 == (bdf.function + bdf.device * 0x100) + bdf.bus * 0x1_0000);
    lemma_digits(bdf.function + bdf.device * 0x100, bdf.bus as int, 0x1_0000);
    lemma_digits(info.vendor_id as int, info.device_id as int, 0x1_0000);
    let class = info.subclass + info.class_code * 0x100;
    let interface = info.prog_if + class * 0x100;
    assert(told.v3 == info.revision_id + interface * 0x100);
    lemma_digits(info.revision_id as int, interface, 0x100);
    lemma_digits(info.prog_if as int, class, 0x100);
    lemma_digits(info.subclass as int, info.class_code as int, 0x100);
    assert(told.v3 == (info.revision_id + info.prog_if * 0x100) + class * 0x1_0000);
    lemma_digits(info.revision_id + info.prog_if * 0x100, class, 0x1_0000);
    assert(told.v3 == (info.revision_id + info.prog_if * 0x100 + info.subclass * 0x1_0000)
        + info.class_code * 0x100_0000);
    lemma_digits(
        info.revision_id + info.prog_if * 0x100 + info.subclass * 0x1_0000,
        info.class_code as int,
        0x100_0000,
    );
}

/// Failures of the interrupt controller that a caller can act on keep their names.
pub proof fn law_controller_failures_are_told(error: IrqError)
    ensures
        PciInvokeError::of_irq(error) is InvalidParameter <==> error is InvalidParameter,
        PciInvokeError::of_irq(error) is NotSupported <==> error is NotSupported,
        PciInvokeError::of_irq(error) is OutOfResources <==> error is OutOfResources,
        PciInvokeError::of_irq(error) is ControllerFailure <==> error is InvalidIrq || error
            is WouldBlock || error is Closed || error is DeadlineUnsupported,
{
}

/// The functions are added one by one, then the host is registered and gets its
/// capabilities. A failure ends the publication.
pub proof fn law_host_comes_after_its_functions(
    step: PciPublishStep,
    abi: PciAbi,
    functions: usize,
    event: PciPublishEvent,
    at: usize,
    host: Handle,
)
    ensures
        step is CreateNamespace && event == PciPublishEvent::Namespace(Ok(())) && functions > 0
            ==> step.after(abi, functions, event) == PciPublishStep::AddFunction(0),
        step is CreateNamespace && event == PciPublishEvent::Namespace(Ok(())) && functions == 0
            ==> step.after(abi, functions, event) is RegisterHost,
        step == PciPublishStep::AddFunction(at) && event == PciPublishEvent::Added(Ok(())) && at + 1
            < functions ==> step.after(abi, functions, event) == PciPublishStep::AddFunction(
            (at + 1) as usize,
        ),
        step == PciPublishStep::AddFunction(at) && event == PciPublishEvent::Added(Ok(())) && at + 1
            >= functions ==> step.after(abi, functions, event) is RegisterHost,
        step is RegisterHost && event == PciPublishEvent::Registered(Ok(host)) ==> step.after(
            abi,
            functions,
            event,
        ) == PciPublishStep::SetHostCaps(host, abi.host_query),
        step.after(abi, functions, event) == PciPublishStep::Done(Ok(host)) ==> step
            == PciPublishStep::Done(Ok(host)) || (step is SetHostCaps && step->SetHostCaps_0 == host
            && (event matches PciPublishEvent::HostCaps(Ok(_)))),
{
}

/// A request for message interrupts is refused before anything is touched where
/// it cannot be read, asks for none, or has no room for the answer.
pub proof fn law_bad_requests_are_refused_early(
    args: Option<PciInterruptBindArgs>,
    runtime: bool,
)
    ensures
        early_refusal(args, runtime) is None <==> runtime && (args matches Some(asked) && asked.count
            > 0 && asked.slots_len >= asked.count),
        args is None ==> early_refusal(args, runtime) == Some(PciInvokeError::Fault),
        args matches Some(asked) ==> {
            &&& asked.count == 0 ==> early_refusal(args, runtime) == Some(
                PciInvokeError::InvalidParameter,
            )
            &&& 0 < asked.count && asked.slots_len < asked.count ==> early_refusal(args, runtime)
                == Some(PciInvokeError::BufferTooSmall)
            &&& 0 < asked.count <= asked.slots_len && !runtime ==> early_refusal(args, runtime)
                == Some(PciInvokeError::RuntimeUnavailable)
        },
{
}

/// A processor is asked for where the caller named one.
pub proof fn law_hint_is_passed_on(args: PciInterruptBindArgs, abi: PciAbi)
    ensures
        args.cpu_hint == abi.no_cpu_hint ==> hint_of(args, abi) is None,
        args.cpu_hint != abi.no_cpu_hint ==> hint_of(args, abi) == Some(args.cpu_hint),
{
}

/// A function that already sends messages is silenced before it is changed, and
/// what it had goes back to the controller. The controller is asked for the kind
/// and number of messages that were wanted.
pub proof fn law_old_messages_go_back_first(
    kind: MessageIrqKind,
    abi: PciAbi,
    args: Option<PciInterruptBindArgs>,
    runtime: bool,
    before: (PciFunction, Spaces),
    after: (PciFunction, Spaces),
    outcome: PciExecuteOutcome,
)
    requires
        PciFunctionExecuteGuard::enable_effect(kind, abi, args, runtime, before, after, outcome),
        !before.0.configuring,
        early_refusal(args, runtime) is None,
    ensures
        outcome.retired == before.0.active,
        after.0.active is None,
        after.0.info == before.0.info,
        before.0.active is None ==> after.1 == before.1,
        before.0.active is Some && answers(before.1, before.0.info.bdf) ==> space_of(
            after.1,
            before.0.info.bdf,
        ) == all_off(space_of(before.1, before.0.info.bdf)),
        outcome.step matches PciExecuteStep::Allocate(_, request) ==> after.0.configuring
            && request.kind == kind && request.count == args->0.count && request.target_cpu
            == hint_of(args->0, abi),
        !(outcome.step is Allocate) ==> !after.0.configuring,
{
}

/// Switching message interrupts off gives them back and silences the function.
pub proof fn law_disabled_function_gives_its_messages_back(
    runtime: bool,
    before: (PciFunction, Spaces),
    after: (PciFunction, Spaces),
    outcome: PciExecuteOutcome,
)
    requires
        PciFunctionExecuteGuard::disable_effect(runtime, before, after, outcome),
        !before.0.configuring,
        runtime,
        answers(before.1, before.0.info.bdf),
    ensures
        outcome.retired == before.0.active,
        after.0.active is None,
        !after.0.configuring,
        space_of(after.1, before.0.info.bdf) == all_off(space_of(before.1, before.0.info.bdf)),
{
}

/// A function that got its messages is bound to their block, and the caller has a
/// session for each of them.
pub proof fn law_bound_function_has_its_sessions(
    abi: PciAbi,
    irq_abi: IrqAbi,
    block: IrqMessageBlock,
    owners: Seq<Result<Handle, ObjectError>>,
    writable: bool,
    before: (PciFunction, Spaces, Map<u64, Handle>),
    after: (PciFunction, Spaces, Map<u64, Handle>),
    slots: Seq<u32>,
    reply: PciReply,
)
    requires
        PciFunctionExecuteGuard::publish_effect(
            abi,
            irq_abi,
            block,
            owners,
            writable,
            before,
            after,
            slots,
            reply,
        ),
        reply is Done,
        slots.len() <= usize::MAX,
    ensures
        writable,
        after.0.active == Some(block),
        !after.0.configuring,
        after.1 == before.1,
        slots.len() == owners.len(),
        reply matches PciReply::Done(told) && told.v0 == slots.len() && told.v1 == (if block.kind
            is Msi {
            abi.mode_msi
        } else {
            abi.mode_msix
        }),
        forall|i: int| 0 <= i < owners.len() ==> #[trigger] owners[i] is Ok,
{
    assert forall|i: int| 0 <= i < owners.len() implies #[trigger] owners[i] is Ok by {
        assert(sessions_made(irq_abi, owners)[i] is Ok);
    }
}

/// A function can always raise its pin. It can send messages of the kinds that it
/// has capabilities for, as many as these say.
pub proof fn law_modes_follow_the_capabilities(function: PciFunction, abi: PciAbi, space: Seq<u8>)
    ensures
        ({
            let told = function.mode_words(abi, space);
            &&& capability(space, 5) is None && capability(space, 17) is None ==> told.v0
                == abi.bit_intx
            &&& capability(space, 5) is Some && capability(space, 17) is None ==> told.v0
                == abi.bit_intx | abi.bit_msi
            &&& capability(space, 5) is None && capability(space, 17) is Some ==> told.v0
                == abi.bit_intx | abi.bit_msix
            &&& capability(space, 5) is Some && capability(space, 17) is Some ==> told.v0
                == abi.bit_intx | abi.bit_msi | abi.bit_msix
            &&& function.active is None ==> told.v1 == abi.mode_intx
            &&& function.active matches Some(block) ==> told.v1 == (if block.kind is Msi {
                abi.mode_msi
            } else {
                abi.mode_msix
            })
            &&& capability(space, 5) is None ==> told.v2 == 0
            &&& capability(space, 17) is None ==> told.v3 == 0
            &&& capability(space, 17) matches Some(at) ==> told.v3 == half_at(space, at + 2) % 2048
                + 1
        }),
{
}

/// The summary of the capabilities has the bit of each that there is.
pub proof fn law_summary_has_the_bits_of_the_capabilities(space: Seq<u8>, bits: PciCapabilityBits)
    ensures
        ({
            let told = capability_summary_of(space, bits);
            &&& half_at(space, 6) / 16 % 2 == 0 ==> told.capability_bits == 0
            &&& half_at(space, 6) / 16 % 2 == 1 && capability(space, 5) is None && capability(
                space,
                17,
            ) is None ==> told.capability_bits == 0 | bits.list
            &&& capability(space, 5) is Some && capability(space, 17) is None
                ==> told.capability_bits == 0 | bits.list | bits.msi
            &&& capability(space, 5) is None && capability(space, 17) is Some
                ==> told.capability_bits == 0 | bits.list | bits.msix
            &&& capability(space, 5) is Some && capability(space, 17) is Some
                ==> told.capability_bits == 0 | bits.list | bits.msi | bits.msix
            &&& capability(space, 5) is None ==> told.max_msi_vectors == 0
            &&& capability(space, 17) is None ==> told.max_msix_vectors == 0
            &&& capability(space, 17) matches Some(at) ==> told.max_msix_vectors == half_at(
                space,
                at + 2,
            ) % 2048 + 1
        }),
{
    let status = half_at(space, 6);
    assert(status & 0x10 != 0 <==> status / 16 % 2 == 1) by (bit_vector);
    if status / 16 % 2 == 0 {
        law_no_list_no_capability(space, 5);
        law_no_list_no_capability(space, 17);
    }
}

/// Messages of MSI that can be sent together differ in their last bits alone: they
/// have one address and one processor, and their vectors and data count up from an
/// aligned vector.
pub proof fn law_joint_messages_count_up(messages: Seq<MessageIrqDescriptor>, i: int, j: int)
    requires
        consecutive(messages),
        0 <= i <= j < messages.len(),
    ensures
        messages[i].address_lo == messages[j].address_lo,
        messages[i].address_hi == messages[j].address_hi,
        messages[i].cpu_id == messages[j].cpu_id,
        messages[j].vector - messages[i].vector == j - i,
        messages[j].data - messages[i].data == j - i,
        messages[0].vector as int % messages.len() as int == 0,
{
    let a = messages[i];
    let b = messages[j];
    if messages.len() == 1 {
        assert(messages[0].vector as int % 1 == 0);
    }
}

/// A table lies behind the base of its BAR, and has to end where addresses do.
pub proof fn law_table_lies_in_its_bar(msix: PciMsixCapability, space: Seq<u8>)
    ensures
        msix.table_place(space) matches Ok(base) ==> bar_base(space, msix.table_bir) == Ok::<
            int,
            IrqError,
        >(base) && msix.table_offset + 16 * msix.table_size <= usize::MAX,
        bar_base(space, msix.table_bir) matches Ok(base) ==> (msix.table_place(space) is Ok <==> msix.table_offset
            + 16 * msix.table_size <= usize::MAX),
        bar_base(space, msix.table_bir) matches Err(error) ==> msix.table_place(space) == Err::<
            int,
            IrqError,
        >(error),
{
}

proof fn lemma_on_bus(spaces: Spaces, segment: u16, bus: u8, limit: int, bdf: PciBdf)
    requires
        0 <= limit <= 32,
        bdf.segment == segment,
        bdf.bus == bus,
        functions_of_device(spaces, segment, bus, bdf.device).contains(bdf),
        bdf.device < limit,
    ensures
        functions_of_bus(spaces, segment, bus, limit).contains(bdf),
    decreases limit,
{
    let before = functions_of_bus(spaces, segment, bus, limit - 1);
    let last = functions_of_device(spaces, segment, bus, (limit - 1) as u8);
    let all = functions_of_bus(spaces, segment, bus, limit);
    if bdf.device < limit - 1 {
        lemma_on_bus(spaces, segment, bus, limit - 1, bdf);
        let k = choose|k: int| 0 <= k < before.len() && before[k] == bdf;
        assert(all[k] == bdf);
    } else {
        let k = choose|k: int| 0 <= k < last.len() && last[k] == bdf;
        assert(all[before.len() + k] == bdf);
    }
}

/// The scan of a bus passes all thirty-two devices.
pub proof fn law_every_device_of_a_bus_is_scanned(spaces: Spaces, bdf: PciBdf)
    requires
        bdf.device < 32,
        functions_of_device(spaces, bdf.segment, bdf.bus, bdf.device).contains(bdf),
    ensures
        functions_of_bus(spaces, bdf.segment, bdf.bus, 32).contains(bdf),
{
    lemma_on_bus(spaces, bdf.segment, bdf.bus, 32, bdf);
}

} // verus!
