//! Interrupt capabilities of PCI functions.

use super::bars::{PciBarSummary, bar_base, bar_summary_matches, read_bar, summarize_bars};
use super::config::{CONFIG_SPACE_LEN, PciBdf, PciConfigAccess, Spaces, put_space, space_of};
use super::ecam::PciEcamConfig;
use super::scan::{answers, functions_of_regions};
use crate::device::mmio::{MmioAccess, half_at, law_half_reads_back, with_half, with_word, word_at};
use crate::interrupt::{IrqError, MessageIrqDescriptor};
use crate::numeric::exact_log2;
use vstd::arithmetic::power2::pow2;
use vstd::prelude::*;

verus! {

const PCI_VENDOR_ID: u16 = 0x00;

const PCI_COMMAND: u16 = 0x04;

const PCI_STATUS: u16 = 0x06;

const PCI_CAP_PTR: u16 = 0x34;

const PCI_STATUS_CAP_LIST: u16 = 0x10;

const PCI_COMMAND_INTX_DISABLE: u16 = 0x400;

const PCI_CAP_ID_MSI: u8 = 0x05;

const PCI_CAP_ID_MSIX: u8 = 0x11;

const MSI_CONTROL_ENABLE: u16 = 0x1;

const MSI_CONTROL_MMC_MASK: u16 = 0xe;

const MSI_CONTROL_MME_MASK: u16 = 0x70;

const MSI_CONTROL_64BIT: u16 = 0x80;

const MSI_CONTROL_MASKING: u16 = 0x100;

const MSIX_CONTROL_MASK_ALL: u16 = 0x4000;

const MSIX_CONTROL_ENABLE: u16 = 0x8000;

/// Capabilities that a walk looks at before it gives up.
const WALK_LIMIT: usize = 48;

/// Compact capability summary for one PCI function.
#[derive(Debug, Clone, Copy, PartialEq, Eq, Structural)]
pub struct PciCapabilitySummary {
    pub capability_bits: usize,
    pub max_msi_vectors: usize,
    pub max_msix_vectors: usize,
}

/// The bits by which a capability summary says what is there.
#[derive(Debug, Clone, Copy, PartialEq, Eq, Structural)]
pub struct PciCapabilityBits {
    pub list: usize,
    pub msi: usize,
    pub msix: usize,
}

/// Interrupt mode supported by one PCI function.
#[derive(Debug, Clone, Copy, PartialEq, Eq, Structural)]
pub enum PciInterruptMode {
    Intx,
    Msi,
    Msix,
}

/// Summary of interrupt capability coverage across discovered PCI functions.
#[derive(Debug, Clone, Copy, PartialEq, Eq, Structural)]
pub struct PciInterruptSummary {
    pub present_functions: usize,
    pub msi_functions: usize,
    pub msix_functions: usize,
}

/// Where the capability list begins.
pub open spec fn list_head(space: Seq<u8>) -> Option<u16> {
    if half_at(space, 0x06) & 0x10 != 0 {
        Some((space[0x34] & 0xfc) as u16)
    } else {
        None
    }
}

/// Where the capability after the one at `offset` is.
pub open spec fn list_next(space: Seq<u8>, offset: u16) -> Option<u16> {
    let next = space[offset + 1] & 0xfc;
    if next != 0 {
        Some(next as u16)
    } else {
        None
    }
}

/// The first capability with an identifier among the next few of the list. The
/// list ends where a link leads out of the capability area.
pub open spec fn find_capability(space: Seq<u8>, id: u8, next: Option<u16>, remaining: int) -> Option<
    u16,
>
    decreases remaining,
{
    match next {
        None => None,
        Some(offset) => if offset < 0x40 || offset >= 0x100 || remaining <= 0 {
            None
        } else if space[offset as int] == id {
            Some(offset)
        } else {
            find_capability(space, id, list_next(space, offset), remaining - 1)
        },
    }
}

/// The capability with an identifier that the kernel goes by.
pub open spec fn capability(space: Seq<u8>, id: u8) -> Option<u16> {
    find_capability(space, id, list_head(space), 48)
}

/// The first MSI capability.
pub open spec fn msi_of(space: Seq<u8>) -> Option<PciMsiCapability> {
    match capability(space, 0x05) {
        None => None,
        Some(offset) => {
            let control = half_at(space, offset + 2);
            Some(
                PciMsiCapability {
                    offset,
                    supports_64bit: control & 0x80 != 0,
                    supports_masking: control & 0x100 != 0,
                    max_messages: pow2(((control & 0xe) / 2) as nat) as usize,
                },
            )
        },
    }
}

/// The first MSI-X capability.
pub open spec fn msix_of(space: Seq<u8>) -> Option<PciMsixCapability> {
    match capability(space, 0x11) {
        None => None,
        Some(offset) => {
            let table = word_at(space, offset + 4);
            let pba = word_at(space, offset + 8);
            Some(
                PciMsixCapability {
                    offset,
                    table_size: (half_at(space, offset + 2) % 0x800 + 1) as usize,
                    table_bir: (table % 8) as u8,
                    table_offset: (table - table % 8) as u32,
                    pba_bir: (pba % 8) as u8,
                    pba_offset: (pba - pba % 8) as u32,
                },
            )
        },
    }
}

/// The space with legacy INTx delivery switched off.
pub open spec fn intx_off(space: Seq<u8>) -> Seq<u8> {
    with_half(space, 0x04, half_at(space, 0x04) | 0x400)
}

/// The space with legacy INTx delivery switched on.
pub open spec fn intx_on(space: Seq<u8>) -> Seq<u8> {
    with_half(space, 0x04, half_at(space, 0x04) & 0xfbff)
}

/// The space with MSI delivery of a capability switched off.
pub open spec fn msi_off(space: Seq<u8>, offset: u16) -> Seq<u8> {
    with_half(space, offset + 2, half_at(space, offset + 2) & 0xfffe)
}

/// The space with MSI-X delivery of a capability switched off and masked.
pub open spec fn msix_off(space: Seq<u8>, offset: u16) -> Seq<u8> {
    with_half(space, offset + 2, (half_at(space, offset + 2) & 0x7fff) | 0x4000)
}

/// The space with every interrupt delivery mode switched off.
pub open spec fn all_off(space: Seq<u8>) -> Seq<u8> {
    let without_msi = match msi_of(space) {
        Some(msi) => msi_off(space, msi.offset),
        None => space,
    };
    let without_msix = match msix_of(without_msi) {
        Some(msix) => msix_off(without_msi, msix.offset),
        None => without_msi,
    };
    intx_off(without_msix)
}

/// Finds a capability by walking the list.
fn walk<A: PciConfigAccess>(access: &A, bdf: PciBdf, id: u8) -> (found: Option<u16>)
    requires
        access.wf(),
    ensures
        found == capability(space_of(access.spaces(), bdf), id),
        found matches Some(offset) ==> 0x40 <= offset < 0x100,
{
    let ghost space = space_of(access.spaces(), bdf);
    let status: u16 = access.read_u16(bdf, PCI_STATUS);
    let mut next: Option<u16> = if status & PCI_STATUS_CAP_LIST != 0 {
        Some((access.read_u8(bdf, PCI_CAP_PTR) & 0xfc) as u16)
    } else {
        None
    };
    let mut remaining: usize = WALK_LIMIT;
    loop
        invariant
            access.wf(),
            space == space_of(access.spaces(), bdf),
            remaining <= WALK_LIMIT,
            capability(space, id) == find_capability(space, id, next, remaining as int),
        decreases remaining,
    {
        let offset: u16 = match next {
            Some(offset) => offset,
            None => {
                return None;
            },
        };
        if offset < 0x40 || offset >= 0x100 || remaining == 0 {
            return None;
        }
        remaining = remaining - 1;
        if access.read_u8(bdf, offset) == id {
            return Some(offset);
        }
        let following: u16 = (access.read_u8(bdf, offset + 1) & 0xfc) as u16;
        next = if following != 0 {
            Some(following)
        } else {
            None
        };
    }
}

/// Interrupt-capability view over one PCI function.
pub struct PciInterruptCapabilities<'a, A: PciConfigAccess> {
    access: &'a A,
    bdf: PciBdf,
}

impl<'a, A: PciConfigAccess> PciInterruptCapabilities<'a, A> {
    pub closed spec fn wf(&self) -> bool {
        self.access.wf()
    }

    pub closed spec fn spaces(&self) -> Spaces {
        self.access.spaces()
    }

    pub closed spec fn function(&self) -> PciBdf {
        self.bdf
    }

    pub open spec fn space(&self) -> Seq<u8> {
        space_of(self.spaces(), self.function())
    }

    /// Build one capability view over the supplied PCI function.
    pub fn new(access: &'a A, bdf: PciBdf) -> (caps: Self)
        requires
            access.wf(),
        ensures
            caps.wf(),
            caps.spaces() == access.spaces(),
            caps.function() == bdf,
    {
        PciInterruptCapabilities { access, bdf }
    }

    /// Return whether this function exists in config space.
    pub fn present(&self) -> (present: bool)
        requires
            self.wf(),
        ensures
            present == answers(self.spaces(), self.function()),
    {
        self.access.contains(self.bdf) && self.access.read_u16(self.bdf, PCI_VENDOR_ID) != u16::MAX
    }

    /// Return the most capable interrupt mode currently discoverable.
    pub fn interrupt_mode(&self) -> (mode: PciInterruptMode)
        requires
            self.wf(),
        ensures
            mode == mode_of(self.space()),
    {
        if self.msix().is_some() {
            PciInterruptMode::Msix
        } else if self.msi().is_some() {
            PciInterruptMode::Msi
        } else {
            PciInterruptMode::Intx
        }
    }

    /// Return the parsed MSI capability, if present.
    pub fn msi(&self) -> (capability: Option<PciMsiCapability>)
        requires
            self.wf(),
        ensures
            capability == msi_of(self.space()),
            capability matches Some(msi) ==> msi.wf(),
    {
        match walk(self.access, self.bdf, PCI_CAP_ID_MSI) {
            Some(offset) => Some(PciMsiCapability::parse(self.access, self.bdf, offset)),
            None => None,
        }
    }

    /// Return the parsed MSI-X capability, if present.
    pub fn msix(&self) -> (capability: Option<PciMsixCapability>)
        requires
            self.wf(),
        ensures
            capability == msix_of(self.space()),
            capability matches Some(msix) ==> msix.wf(),
    {
        match walk(self.access, self.bdf, PCI_CAP_ID_MSIX) {
            Some(offset) => Some(PciMsixCapability::parse(self.access, self.bdf, offset)),
            None => None,
        }
    }

    /// Return one compact summary of this function's BAR layout.
    pub fn bar_summary(&self) -> (summary: PciBarSummary)
        requires
            self.wf(),
        ensures
            bar_summary_matches(self.space(), summary),
    {
        summarize_bars(self.access, self.bdf)
    }

    /// Return one compact summary of this function's interrupt capability set.
    pub fn capability_summary(&self, bits: PciCapabilityBits) -> (summary: PciCapabilitySummary)
        requires
            self.wf(),
        ensures
            summary == capability_summary_of(self.space(), bits),
    {
        let mut summary = PciCapabilitySummary {
            capability_bits: 0,
            max_msi_vectors: 0,
            max_msix_vectors: 0,
        };
        let status: u16 = self.access.read_u16(self.bdf, PCI_STATUS);
        if status & PCI_STATUS_CAP_LIST != 0 {
            summary.capability_bits = summary.capability_bits | bits.list;
        }
        if let Some(msi) = self.msi() {
            summary.capability_bits = summary.capability_bits | bits.msi;
            summary.max_msi_vectors = msi.max_messages;
        }
        if let Some(msix) = self.msix() {
            summary.capability_bits = summary.capability_bits | bits.msix;
            summary.max_msix_vectors = msix.table_size;
        }
        summary
    }

    /// Disable every currently programmable interrupt delivery mode and mask
    /// legacy INTx delivery.
    pub fn disable_all_interrupts(access: &mut A, bdf: PciBdf)
        requires
            old(access).wf(),
        ensures
            final(access).wf(),
            final(access).spaces() == put_space(
                old(access).spaces(),
                bdf,
                all_off(space_of(old(access).spaces(), bdf)),
            ),
    {
        let ghost before = old(access).spaces();
        let msi = PciInterruptCapabilities::new(&*access, bdf).msi();
        if let Some(msi) = msi {
            msi.disable(access, bdf);
        }
        let msix = PciInterruptCapabilities::new(&*access, bdf).msix();
        if let Some(msix) = msix {
            msix.disable(access, bdf);
        }
        set_intx_enabled(access, bdf, false);
        proof {
            assert(access.spaces() =~= put_space(
                before,
                bdf,
                all_off(space_of(before, bdf)),
            ));
        }
    }
}

/// The most capable interrupt mode of a function.
pub open spec fn mode_of(space: Seq<u8>) -> PciInterruptMode {
    if msix_of(space) is Some {
        PciInterruptMode::Msix
    } else if msi_of(space) is Some {
        PciInterruptMode::Msi
    } else {
        PciInterruptMode::Intx
    }
}

pub open spec fn capability_summary_of(space: Seq<u8>, bits: PciCapabilityBits) -> PciCapabilitySummary {
    let listed = if half_at(space, 0x06) & 0x10 != 0 {
        0 | bits.list
    } else {
        0
    };
    let with_msi = if msi_of(space) is Some {
        listed | bits.msi
    } else {
        listed
    };
    PciCapabilitySummary {
        capability_bits: if msix_of(space) is Some {
            with_msi | bits.msix
        } else {
            with_msi
        },
        max_msi_vectors: match msi_of(space) {
            Some(msi) => msi.max_messages,
            None => 0,
        },
        max_msix_vectors: match msix_of(space) {
            Some(msix) => msix.table_size,
            None => 0,
        },
    }
}

fn set_intx_enabled<A: PciConfigAccess>(access: &mut A, bdf: PciBdf, enabled: bool)
    requires
        old(access).wf(),
    ensures
        final(access).wf(),
        final(access).spaces() == put_space(
            old(access).spaces(),
            bdf,
            if enabled {
                intx_on(space_of(old(access).spaces(), bdf))
            } else {
                intx_off(space_of(old(access).spaces(), bdf))
            },
        ),
{
    let mut command: u16 = access.read_u16(bdf, PCI_COMMAND);
    if enabled {
        command = command & 0xfbff;
    } else {
        command = command | PCI_COMMAND_INTX_DISABLE;
    }
    access.write_u16(bdf, PCI_COMMAND, command);
}

/// Parsed MSI capability metadata.
#[derive(Debug, Clone, Copy, PartialEq, Eq, Structural)]
pub struct PciMsiCapability {
    pub offset: u16,
    pub supports_64bit: bool,
    pub supports_masking: bool,
    pub max_messages: usize,
}

impl PciMsiCapability {
    /// The capability lies in the capability area.
    pub open spec fn wf(self) -> bool {
        0x40 <= self.offset < 0x100
    }

    fn parse<A: PciConfigAccess>(access: &A, bdf: PciBdf, offset: u16) -> (capability: Self)
        requires
            access.wf(),
            0x40 <= offset < 0x100,
        ensures
            capability.wf(),
            ({
                let control = half_at(space_of(access.spaces(), bdf), offset + 2);
                capability == PciMsiCapability {
                    offset,
                    supports_64bit: control & 0x80 != 0,
                    supports_masking: control & 0x100 != 0,
                    max_messages: pow2(((control & 0xe) / 2) as nat) as usize,
                }
            }),
    {
        let control: u16 = access.read_u16(bdf, offset + 2);
        let exponent: usize = ((control & MSI_CONTROL_MMC_MASK) / 2) as usize;
        assert(control & 0xe <= 14) by (bit_vector);
        proof {
            vstd::arithmetic::power2::lemma2_to64();
            assert(pow2(exponent as nat) <= 128);
            vstd::bits::lemma_usize_shl_is_mul(1, exponent);
        }
        PciMsiCapability {
            offset,
            supports_64bit: control & MSI_CONTROL_64BIT != 0,
            supports_masking: control & MSI_CONTROL_MASKING != 0,
            max_messages: 1usize << exponent,
        }
    }

    pub open spec fn supports(self, count: usize) -> bool {
        count <= self.max_messages && exists|e: nat| count == #[trigger] pow2(e)
    }

    /// Return whether this capability can encode the supplied message count.
    pub fn supports_count(self, count: usize) -> (supported: bool)
        ensures
            supported == self.supports(count),
    {
        exact_log2(count).is_some() && count <= self.max_messages
    }
}

/// Whether the messages follow one another from an aligned vector on and go to
/// one processor.
pub open spec fn consecutive(messages: Seq<MessageIrqDescriptor>) -> bool {
    &&& messages.len() > 1 ==> messages[0].vector as int % messages.len() as int == 0
    &&& forall|i: int|
        0 <= i < messages.len() ==> {
            let message = #[trigger] messages[i];
            &&& message.address_lo == messages[0].address_lo
            &&& message.address_hi == messages[0].address_hi
            &&& message.cpu_id == messages[0].cpu_id
            &&& message.vector == messages[0].vector + i
            &&& message.data == messages[0].data + i
        }
}

/// The space with a function in MSI mode.
pub open spec fn msi_on(
    space: Seq<u8>,
    msi: PciMsiCapability,
    base: MessageIrqDescriptor,
    exponent: u16,
) -> Seq<u8> {
    let at = msi.offset as int;
    let control = half_at(space, at + 2) & 0xff8f | (exponent << 4) | 1;
    let low = with_word(space, at + 4, base.address_lo);
    let high = if msi.supports_64bit {
        with_word(low, at + 8, base.address_hi)
    } else {
        low
    };
    let data_at = if msi.supports_64bit {
        at + 12
    } else {
        at + 8
    };
    let data = with_half(high, data_at, (base.data % 0x1_0000) as u16);
    let unmasked = if msi.supports_masking {
        with_word(data, data_at + 4, 0)
    } else {
        data
    };
    intx_off(with_half(unmasked, at + 2, control))
}

impl PciMsiCapability {
    fn validate_descriptors(self, descriptors: &Vec<MessageIrqDescriptor>) -> (result: Result<
        u16,
        IrqError,
    >)
        ensures
            match result {
                Ok(exponent) => descriptors@.len() == pow2(exponent as nat) && self.supports(
                    descriptors@.len() as usize,
                ) && consecutive(descriptors@) && descriptors@.len() > 0,
                Err(error) => error == IrqError::InvalidParameter && !(descriptors@.len() > 0
                    && self.supports(descriptors@.len() as usize) && consecutive(descriptors@)),
            },
    {
        let count: usize = descriptors.len();
        if count == 0 {
            return Err(IrqError::InvalidParameter);
        }
        let exponent: u16 = match exact_log2(count) {
            Some(exponent) => exponent,
            None => {
                return Err(IrqError::InvalidParameter);
            },
        };
        if count > self.max_messages {
            return Err(IrqError::InvalidParameter);
        }
        let base = descriptors[0];
        if count > 1 && base.vector % count != 0 {
            return Err(IrqError::InvalidParameter);
        }
        let mut index: usize = 0;
        while index < count
            invariant
                index <= count,
                count == descriptors@.len(),
                count > 0,
                base == descriptors@[0],
                forall|i: int|
                    0 <= i < index ==> {
                        let message = #[trigger] descriptors@[i];
                        &&& message.address_lo == base.address_lo
                        &&& message.address_hi == base.address_hi
                        &&& message.cpu_id == base.cpu_id
                        &&& message.vector == base.vector + i
                        &&& message.data == base.data + i
                    },
            decreases count - index,
        {
            let descriptor = descriptors[index];
            if descriptor.address_lo != base.address_lo || descriptor.address_hi != base.address_hi
                || descriptor.cpu_id != base.cpu_id || descriptor.vector < base.vector
                || descriptor.vector - base.vector != index || descriptor.data < base.data
                || (descriptor.data - base.data) as usize != index {
                assert(!consecutive(descriptors@)) by {
                    assert(descriptors@[index as int] == descriptor);
                }
                return Err(IrqError::InvalidParameter);
            }
            index = index + 1;
        }
        Ok(exponent)
    }

    /// Program this function into MSI mode using the supplied message
    /// descriptors.
    pub fn enable<A: PciConfigAccess>(
        self,
        access: &mut A,
        bdf: PciBdf,
        descriptors: &Vec<MessageIrqDescriptor>,
    ) -> (result: Result<(), IrqError>)
        requires
            self.wf(),
            old(access).wf(),
        ensures
            final(access).wf(),
            match result {
                Ok(()) => {
                    &&& descriptors@.len() > 0
                    &&& self.supports(descriptors@.len() as usize)
                    &&& consecutive(descriptors@)
                    &&& exists|exponent: u16|
                        descriptors@.len() == #[trigger] pow2(exponent as nat)
                            && final(access).spaces() == put_space(
                            old(access).spaces(),
                            bdf,
                            msi_on(
                                space_of(old(access).spaces(), bdf),
                                self,
                                descriptors@[0],
                                exponent,
                            ),
                        )
                },
                Err(error) => {
                    &&& error == IrqError::InvalidParameter
                    &&& !(descriptors@.len() > 0 && self.supports(descriptors@.len() as usize)
                        && consecutive(descriptors@))
                    &&& final(access).spaces() == old(access).spaces()
                },
            },
    {
        let mme: u16 = match self.validate_descriptors(descriptors) {
            Ok(exponent) => exponent,
            Err(error) => {
                return Err(error);
            },
        };
        let ghost before = access.spaces();
        let base = descriptors[0];
        let mut control: u16 = access.read_u16(bdf, self.offset + 2);
        control = control & 0xff8f;
        control = control | (mme << 4);
        control = control | MSI_CONTROL_ENABLE;
        access.write_u32(bdf, self.offset + 4, base.address_lo);
        let data_offset: u16 = if self.supports_64bit {
            access.write_u32(bdf, self.offset + 8, base.address_hi);
            self.offset + 12
        } else {
            self.offset + 8
        };
        access.write_u16(bdf, data_offset, (base.data % 0x1_0000) as u16);
        if self.supports_masking {
            access.write_u32(bdf, data_offset + 4, 0);
        }
        access.write_u16(bdf, self.offset + 2, control);
        set_intx_enabled(access, bdf, false);
        proof {
            assert(access.spaces() =~= put_space(
                before,
                bdf,
                msi_on(space_of(before, bdf), self, descriptors@[0], mme),
            ));
        }
        Ok(())
    }

    /// Disable MSI delivery on this capability.
    pub fn disable<A: PciConfigAccess>(self, access: &mut A, bdf: PciBdf)
        requires
            self.wf(),
            old(access).wf(),
        ensures
            final(access).wf(),
            final(access).spaces() == put_space(
                old(access).spaces(),
                bdf,
                msi_off(space_of(old(access).spaces(), bdf), self.offset),
            ),
    {
        let control: u16 = access.read_u16(bdf, self.offset + 2) & 0xfffe;
        access.write_u16(bdf, self.offset + 2, control);
    }
}

/// Parsed MSI-X capability metadata.
#[derive(Debug, Clone, Copy, PartialEq, Eq, Structural)]
pub struct PciMsixCapability {
    pub offset: u16,
    pub table_size: usize,
    pub table_bir: u8,
    pub table_offset: u32,
    pub pba_bir: u8,
    pub pba_offset: u32,
}

/// One word that has to be stored in an MSI-X table.
#[derive(Debug, Clone, Copy, PartialEq, Eq, Structural)]
pub struct MsixTableWrite {
    pub offset: usize,
    pub value: u32,
}

/// What has to be stored in an MSI-X table before its function is enabled.
pub struct MsixTablePlan {
    /// Physical base of the memory that holds the table.
    pub phys_base: usize,
    /// Bytes of that memory up to the end of the table.
    pub size: usize,
    pub writes: Vec<MsixTableWrite>,
    /// Control register of the capability while delivery is masked.
    pub control: u16,
}

/// Word of an MSI-X table entry.
pub open spec fn entry_word(message: MessageIrqDescriptor, word: int) -> u32 {
    if word == 0 {
        message.address_lo
    } else if word == 1 {
        message.address_hi
    } else if word == 2 {
        message.data
    } else {
        0
    }
}

/// The words of a table whose entries deliver these messages, unmasked.
pub open spec fn table_words(table_offset: int, messages: Seq<MessageIrqDescriptor>) -> Seq<
    MsixTableWrite,
> {
    Seq::new(
        4 * messages.len(),
        |j: int|
            MsixTableWrite {
                offset: (table_offset + 4 * j) as usize,
                value: entry_word(messages[j / 4], j % 4),
            },
    )
}

/// The space with a capability masked and its delivery off.
pub open spec fn msix_masked(space: Seq<u8>, offset: u16) -> Seq<u8> {
    with_half(space, offset + 2, (half_at(space, offset + 2) | 0x4000) & 0x7fff)
}

/// The space with a function in MSI-X mode, whose control register held
/// `control` while the capability was masked.
pub open spec fn msix_on(space: Seq<u8>, offset: u16, control: u16) -> Seq<u8> {
    intx_off(with_half(space, offset + 2, (control | 0x8000) & 0xbfff))
}

impl PciMsixCapability {
    /// The capability lies in the capability area.
    pub open spec fn wf(self) -> bool {
        0x40 <= self.offset < 0x100
    }

    fn parse<A: PciConfigAccess>(access: &A, bdf: PciBdf, offset: u16) -> (capability: Self)
        requires
            access.wf(),
            0x40 <= offset < 0x100,
        ensures
            capability.wf(),
            ({
                let space = space_of(access.spaces(), bdf);
                let table = word_at(space, offset + 4);
                let pba = word_at(space, offset + 8);
                capability == PciMsixCapability {
                    offset,
                    table_size: (half_at(space, offset + 2) % 0x800 + 1) as usize,
                    table_bir: (table % 8) as u8,
                    table_offset: (table - table % 8) as u32,
                    pba_bir: (pba % 8) as u8,
                    pba_offset: (pba - pba % 8) as u32,
                }
            }),
    {
        let control: u16 = access.read_u16(bdf, offset + 2);
        let table: u32 = access.read_u32(bdf, offset + 4);
        let pba: u32 = access.read_u32(bdf, offset + 8);
        PciMsixCapability {
            offset,
            table_size: (control % 0x800 + 1) as usize,
            table_bir: (table % 8) as u8,
            table_offset: table - table % 8,
            pba_bir: (pba % 8) as u8,
            pba_offset: pba - pba % 8,
        }
    }

    /// Where the table is, or why it cannot be reached.
    pub open spec fn table_place(self, space: Seq<u8>) -> Result<int, IrqError> {
        match bar_base(space, self.table_bir) {
            Err(error) => Err(error),
            Ok(base) => if self.table_offset + 16 * self.table_size > usize::MAX {
                Err(IrqError::InvalidParameter)
            } else {
                Ok(base)
            },
        }
    }

    /// Begins to put this function into MSI-X mode: masks the capability, and
    /// says what has to be stored in its table. Where the table cannot be
    /// reached the capability stays masked.
    pub fn enable<A: PciConfigAccess>(
        self,
        access: &mut A,
        bdf: PciBdf,
        descriptors: &Vec<MessageIrqDescriptor>,
    ) -> (result: Result<MsixTablePlan, IrqError>)
        requires
            self.wf(),
            old(access).wf(),
        ensures
            final(access).wf(),
            ({
                let before = space_of(old(access).spaces(), bdf);
                let masked = put_space(
                    old(access).spaces(),
                    bdf,
                    msix_masked(before, self.offset),
                );
                if descriptors@.len() == 0 || descriptors@.len() > self.table_size {
                    &&& result matches Err(error)
                    &&& error == IrqError::InvalidParameter
                    &&& final(access).spaces() == old(access).spaces()
                } else {
                    &&& final(access).spaces() == masked
                    &&& match result {
                        Err(error) => self.table_place(space_of(masked, bdf)) == Err::<
                            int,
                            IrqError,
                        >(error),
                        Ok(plan) => {
                            &&& self.table_place(space_of(masked, bdf)) == Ok::<int, IrqError>(
                                plan.phys_base as int,
                            )
                            &&& plan.size == self.table_offset + 16 * self.table_size
                            &&& plan.writes@ == table_words(self.table_offset as int, descriptors@)
                            &&& plan.control == (half_at(before, self.offset + 2) | 0x4000) & 0x7fff
                        },
                    }
                }
            }),
    {
        let count: usize = descriptors.len();
        if count == 0 || count > self.table_size {
            return Err(IrqError::InvalidParameter);
        }
        let mut control: u16 = access.read_u16(bdf, self.offset + 2);
        control = control | MSIX_CONTROL_MASK_ALL;
        control = control & 0x7fff;
        access.write_u16(bdf, self.offset + 2, control);
        let phys_base: usize = match read_bar(&*access, bdf, self.table_bir) {
            Ok(base) => base,
            Err(error) => {
                return Err(error);
            },
        };
        let table_len: usize = match self.table_size.checked_mul(16) {
            Some(len) => len,
            None => {
                return Err(IrqError::InvalidParameter);
            },
        };
        let table_offset: usize = self.table_offset as usize;
        let size: usize = match table_offset.checked_add(table_len) {
            Some(size) => size,
            None => {
                return Err(IrqError::InvalidParameter);
            },
        };
        let mut writes: Vec<MsixTableWrite> = Vec::new();
        let mut index: usize = 0;
        let ghost words = table_words(self.table_offset as int, descriptors@);
        while index < count
            invariant
                index <= count,
                count == descriptors@.len(),
                count <= self.table_size,
                table_offset == self.table_offset,
                table_offset + 16 * self.table_size <= usize::MAX,
                words == table_words(self.table_offset as int, descriptors@),
                writes@ == words.take(4 * index),
            decreases count - index,
        {
            let descriptor = descriptors[index];
            let base: usize = table_offset + index * 16;
            writes.push(MsixTableWrite { offset: base, value: descriptor.address_lo });
            writes.push(MsixTableWrite { offset: base + 4, value: descriptor.address_hi });
            writes.push(MsixTableWrite { offset: base + 8, value: descriptor.data });
            writes.push(MsixTableWrite { offset: base + 12, value: 0 });
            index = index + 1;
            assert(writes@ =~= words.take(4 * index));
        }
        assert(words.take(4 * index) =~= words);
        Ok(MsixTablePlan { phys_base, size, writes, control })
    }

    /// Ends the change to MSI-X mode, once the table holds the planned words.
    pub fn finish_enable<A: PciConfigAccess>(self, access: &mut A, bdf: PciBdf, control: u16)
        requires
            self.wf(),
            old(access).wf(),
        ensures
            final(access).wf(),
            final(access).spaces() == put_space(
                old(access).spaces(),
                bdf,
                msix_on(space_of(old(access).spaces(), bdf), self.offset, control),
            ),
            final(access).spaces() == put_space(
                old(access).spaces(),
                bdf,
                intx_off(
                    with_half(
                        space_of(old(access).spaces(), bdf),
                        self.offset + 2,
                        (control | 0x8000) & 0xbfff,
                    ),
                ),
            ),
    {
        let ghost before = access.spaces();
        access.write_u16(bdf, self.offset + 2, (control | MSIX_CONTROL_ENABLE) & 0xbfff);
        set_intx_enabled(access, bdf, false);
        assert(access.spaces() =~= put_space(
            before,
            bdf,
            intx_off(
                with_half(space_of(before, bdf), self.offset + 2, (control | 0x8000) & 0xbfff),
            ),
        ));
    }

    /// Disable MSI-X delivery on this capability.
    pub fn disable<A: PciConfigAccess>(self, access: &mut A, bdf: PciBdf)
        requires
            self.wf(),
            old(access).wf(),
        ensures
            final(access).wf(),
            final(access).spaces() == put_space(
                old(access).spaces(),
                bdf,
                msix_off(space_of(old(access).spaces(), bdf), self.offset),
            ),
    {
        let mut control: u16 = access.read_u16(bdf, self.offset + 2);
        control = control & 0x7fff;
        control = control | MSIX_CONTROL_MASK_ALL;
        access.write_u16(bdf, self.offset + 2, control);
    }
}

/// How many of the first functions are in a mode.
pub open spec fn count_mode(spaces: Spaces, found: Seq<PciBdf>, mode: PciInterruptMode, len: int) -> int
    decreases len,
{
    if len <= 0 {
        0
    } else {
        count_mode(spaces, found, mode, len - 1) + if mode_of(space_of(spaces, found[len - 1]))
            == mode {
            1int
        } else {
            0
        }
    }
}

impl<M: MmioAccess> PciEcamConfig<M> {
    /// Summarize interrupt-capability coverage for every discovered PCI
    /// function.
    pub fn interrupt_summary(&self) -> (summary: PciInterruptSummary)
        requires
            self.wf(),
        ensures
            ({
                let found = functions_of_regions(
                    self.spaces(),
                    self.regions(),
                    self.regions().len() as int,
                );
                &&& summary.present_functions == found.len()
                &&& summary.msi_functions == count_mode(
                    self.spaces(),
                    found,
                    PciInterruptMode::Msi,
                    found.len() as int,
                )
                &&& summary.msix_functions == count_mode(
                    self.spaces(),
                    found,
                    PciInterruptMode::Msix,
                    found.len() as int,
                )
            }),
    {
        let found = self.present_functions();
        let mut summary = PciInterruptSummary {
            present_functions: 0,
            msi_functions: 0,
            msix_functions: 0,
        };
        while summary.present_functions < found.len()
            invariant
                self.wf(),
                summary.present_functions <= found@.len(),
                summary.msi_functions <= summary.present_functions,
                summary.msix_functions <= summary.present_functions,
                summary.msi_functions == count_mode(
                    self.spaces(),
                    found@,
                    PciInterruptMode::Msi,
                    summary.present_functions as int,
                ),
                summary.msix_functions == count_mode(
                    self.spaces(),
                    found@,
                    PciInterruptMode::Msix,
                    summary.present_functions as int,
                ),
            decreases found@.len() - summary.present_functions,
        {
            let bdf = found[summary.present_functions];
            summary.present_functions = summary.present_functions + 1;
            match PciInterruptCapabilities::new(self, bdf).interrupt_mode() {
                PciInterruptMode::Msix => {
                    summary.msix_functions = summary.msix_functions + 1;
                },
                PciInterruptMode::Msi => {
                    summary.msi_functions = summary.msi_functions + 1;
                },
                PciInterruptMode::Intx => {},
            }
        }
        summary
    }
}

/// Whether two spaces agree on everything that a walk over the capability list
/// reads.
spec fn same_list(a: Seq<u8>, b: Seq<u8>) -> bool {
    &&& half_at(a, 0x06) == half_at(b, 0x06)
    &&& a[0x34] == b[0x34]
    &&& forall|i: int|
        0x40 <= i < 0x101 && (i % 4 == 0 || i % 4 == 1) ==> #[trigger] a[i] == b[i]
}

proof fn lemma_same_walk(a: Seq<u8>, b: Seq<u8>, id: u8, next: Option<u16>, remaining: int)
    requires
        same_list(a, b),
        next matches Some(offset) ==> offset % 4 == 0,
    ensures
        find_capability(a, id, next, remaining) == find_capability(b, id, next, remaining),
        find_capability(a, id, next, remaining) matches Some(offset) ==> 0x40 <= offset < 0x100
            && offset % 4 == 0 && a[offset as int] == id,
    decreases remaining,
{
    match next {
        Some(offset) => {
            if !(offset < 0x40 || offset >= 0x100 || remaining <= 0) {
                assert(a[offset as int] == b[offset as int]);
                assert(a[offset + 1] == b[offset + 1]);
                let link = a[offset + 1];
                assert((link & 0xfc) % 4 == 0) by (bit_vector);
                lemma_same_walk(a, b, id, list_next(a, offset), remaining - 1);
            }
        },
        None => {},
    }
}

proof fn lemma_same_capability(a: Seq<u8>, b: Seq<u8>, id: u8)
    requires
        same_list(a, b),
    ensures
        capability(a, id) == capability(b, id),
        capability(a, id) matches Some(offset) ==> 0x40 <= offset < 0x100 && offset % 4 == 0
            && a[offset as int] == id,
{
    let head = a[0x34];
    assert((head & 0xfc) % 4 == 0) by (bit_vector);
    lemma_same_walk(a, b, id, list_head(a), 48);
}

/// A function with every delivery mode switched off has its MSI and MSI-X
/// enable bits clear, its MSI-X vectors masked and INTx disabled.
#[verifier::rlimit(60)]
pub proof fn law_all_off_is_silent(space: Seq<u8>)
    requires
        space.len() == CONFIG_SPACE_LEN,
    ensures
        ({
            let after = all_off(space);
            &&& msi_of(space) matches Some(msi) ==> half_at(after, msi.offset + 2) & 0x1 == 0
            &&& msix_of(space) matches Some(msix) ==> half_at(after, msix.offset + 2) & 0x8000 == 0
                && half_at(after, msix.offset + 2) & 0x4000 != 0
            &&& half_at(after, 0x04) & 0x400 != 0
        }),
{
    lemma_same_capability(space, space, 0x05);
    lemma_same_capability(space, space, 0x11);
    let first = match msi_of(space) {
        Some(msi) => msi_off(space, msi.offset),
        None => space,
    };
    assert(same_list(space, first));
    lemma_same_capability(space, first, 0x11);
    let second = match msix_of(first) {
        Some(msix) => msix_off(first, msix.offset),
        None => first,
    };
    let command = half_at(second, 0x04);
    law_half_reads_back(second, 0x04, command | 0x400);
    assert((command | 0x400) & 0x400 != 0) by (bit_vector);
    if let Some(msi) = msi_of(space) {
        let control = half_at(space, msi.offset + 2);
        law_half_reads_back(space, msi.offset + 2, control & 0xfffe);
        assert((control & 0xfffe) & 1 == 0) by (bit_vector);
        assert(half_at(all_off(space), msi.offset + 2) == half_at(first, msi.offset + 2));
    }
    if let Some(msix) = msix_of(space) {
        let control = half_at(first, msix.offset + 2);
        law_half_reads_back(first, msix.offset + 2, (control & 0x7fff) | 0x4000);
        assert(((control & 0x7fff) | 0x4000) & 0x8000 == 0) by (bit_vector);
        assert(((control & 0x7fff) | 0x4000) & 0x4000 != 0) by (bit_vector);
        assert(half_at(all_off(space), msix.offset + 2) == half_at(second, msix.offset + 2));
    }
}

/// Switching every delivery mode off changes the INTx disable bit of the
/// command word, the MSI enable bit and the MSI-X enable and mask bits. Every
/// other bit of the space stays.
#[verifier::rlimit(60)]
pub proof fn law_all_off_keeps_the_rest(space: Seq<u8>)
    requires
        space.len() == CONFIG_SPACE_LEN,
    ensures
        ({
            let after = all_off(space);
            &&& after.len() == space.len()
            &&& half_at(after, 0x04) == half_at(space, 0x04) | 0x400
            &&& msi_of(space) matches Some(msi) ==> half_at(after, msi.offset + 2) == half_at(
                space,
                msi.offset + 2,
            ) & 0xfffe
            &&& msix_of(space) matches Some(msix) ==> half_at(after, msix.offset + 2) == (half_at(
                space,
                msix.offset + 2,
            ) & 0x7fff) | 0x4000
            &&& forall|i: int|
                0 <= i < space.len() && !(0x04 <= i < 0x06) && !(msi_of(space) matches Some(msi)
                    && msi.offset + 2 <= i < msi.offset + 4) && !(msix_of(space) matches Some(msix)
                    && msix.offset + 2 <= i < msix.offset + 4) ==> #[trigger] after[i] == space[i]
        }),
{
    lemma_same_capability(space, space, 0x05);
    lemma_same_capability(space, space, 0x11);
    let first = match msi_of(space) {
        Some(msi) => msi_off(space, msi.offset),
        None => space,
    };
    assert(same_list(space, first));
    lemma_same_capability(space, first, 0x11);
    let second = match msix_of(first) {
        Some(msix) => msix_off(first, msix.offset),
        None => first,
    };
    assert(half_at(second, 0x04) == half_at(space, 0x04));
    law_half_reads_back(second, 0x04, half_at(second, 0x04) | 0x400);
    if let Some(msi) = msi_of(space) {
        let control = half_at(space, msi.offset + 2);
        law_half_reads_back(space, msi.offset + 2, control & 0xfffe);
        assert(half_at(all_off(space), msi.offset + 2) == half_at(first, msi.offset + 2));
    }
    if let Some(msix) = msix_of(space) {
        let control = half_at(first, msix.offset + 2);
        assert(control == half_at(space, msix.offset + 2));
        law_half_reads_back(first, msix.offset + 2, (control & 0x7fff) | 0x4000);
        assert(half_at(all_off(space), msix.offset + 2) == half_at(second, msix.offset + 2));
    }
}

proof fn lemma_store_what_is_there(space: Seq<u8>, offset: int)
    requires
        0 <= offset,
        offset + 2 <= space.len(),
    ensures
        with_half(space, offset, half_at(space, offset)) == space,
{
    assert(with_half(space, offset, half_at(space, offset)) =~= space);
}

/// A space whose delivery modes are all off is not changed by switching them off.
proof fn lemma_off_stays(space: Seq<u8>)
    requires
        space.len() == CONFIG_SPACE_LEN,
        half_at(space, 0x04) | 0x400 == half_at(space, 0x04),
        capability(space, 0x05) matches Some(at) ==> at < 0x100 && half_at(space, at + 2) & 0xfffe
            == half_at(space, at + 2),
        capability(space, 0x11) matches Some(at) ==> at < 0x100 && (half_at(space, at + 2) & 0x7fff)
            | 0x4000 == half_at(space, at + 2),
    ensures
        all_off(space) == space,
{
    if let Some(at) = capability(space, 0x05) {
        lemma_store_what_is_there(space, at + 2);
    }
    if let Some(at) = capability(space, 0x11) {
        lemma_store_what_is_there(space, at + 2);
    }
    lemma_store_what_is_there(space, 0x04);
}

#[verifier::rlimit(60)]
proof fn lemma_all_off_keeps_the_list(space: Seq<u8>)
    requires
        space.len() == CONFIG_SPACE_LEN,
    ensures
        capability(all_off(space), 0x05) == capability(space, 0x05),
        capability(all_off(space), 0x11) == capability(space, 0x11),
        capability(space, 0x05) matches Some(at) ==> at < 0x100,
        capability(space, 0x11) matches Some(at) ==> at < 0x100,
{
    let after = all_off(space);
    law_all_off_keeps_the_rest(space);
    lemma_same_capability(space, space, 0x05);
    lemma_same_capability(space, space, 0x11);
    assert(same_list(space, after));
    lemma_same_capability(space, after, 0x05);
    lemma_same_capability(space, after, 0x11);
}

/// Where every delivery mode is off, switching all of them off changes nothing.
#[verifier::rlimit(60)]
pub proof fn law_all_off_twice_is_once(space: Seq<u8>)
    requires
        space.len() == CONFIG_SPACE_LEN,
    ensures
        all_off(all_off(space)) == all_off(space),
{
    law_all_off_keeps_the_rest(space);
    lemma_all_off_keeps_the_list(space);
    if let Some(at) = capability(space, 0x05) {
        let control = half_at(space, at + 2);
        assert((control & 0xfffe) & 0xfffe == control & 0xfffe) by (bit_vector);
        assert(msi_of(space) is Some);
    }
    if let Some(at) = capability(space, 0x11) {
        let control = half_at(space, at + 2);
        assert((((control & 0x7fff) | 0x4000) & 0x7fff) | 0x4000 == (control & 0x7fff) | 0x4000)
            by (bit_vector);
        assert(msix_of(space) is Some);
    }
    let command = half_at(space, 0x04);
    assert((command | 0x400) | 0x400 == command | 0x400) by (bit_vector);
    lemma_off_stays(all_off(space));
}

/// A function in MSI mode has its enable bit set and INTx disabled.
#[verifier::rlimit(60)]
pub proof fn law_msi_on_delivers(
    space: Seq<u8>,
    msi: PciMsiCapability,
    base: MessageIrqDescriptor,
    exponent: u16,
)
    requires
        space.len() == CONFIG_SPACE_LEN,
        msi.wf(),
    ensures
        ({
            let after = msi_on(space, msi, base, exponent);
            &&& half_at(after, msi.offset + 2) & 0x1 == 1
            &&& half_at(after, 0x04) & 0x400 != 0
            &&& word_at(after, msi.offset + 4) == base.address_lo
        }),
{
    let control = half_at(space, msi.offset + 2);
    assert((control & 0xff8f | (exponent << 4) | 1) & 1 == 1) by (bit_vector);
    let written = control & 0xff8f | (exponent << 4) | 1;
    let after = msi_on(space, msi, base, exponent);
    assert(after[msi.offset + 2] == (written % 0x100) as u8);
    assert(after[msi.offset + 3] == (written / 0x100) as u8);
    assert(half_at(after, msi.offset + 2) == written);
    let low = with_word(space, msi.offset + 4, base.address_lo);
    assert(after[msi.offset + 4] == low[msi.offset + 4]);
    assert(after[msi.offset + 5] == low[msi.offset + 5]);
    assert(after[msi.offset + 6] == low[msi.offset + 6]);
    assert(after[msi.offset + 7] == low[msi.offset + 7]);
    let command = half_at(space, 0x04);
    assert((command | 0x400) & 0x400 != 0) by (bit_vector);
    assert(half_at(after, 0x04) == command | 0x400);
}

} // verus!
