//! Configuration space behind memory-mapped ECAM regions.

use super::config::{CONFIG_SPACE_LEN, PciBdf, PciConfigAccess, Spaces, put_space};
use crate::device::mmio::{MmioAccess, half_at, with_half, with_word, word_at};
use crate::interrupt::IrqError;
use vstd::prelude::*;

verus! {

/// Bytes that one bus takes up in an ECAM region.
pub const ECAM_BUS_LEN: usize = 0x10_0000;

/// One ECAM region that the firmware tables name, and the memory window that
/// maps it, where it could be mapped.
pub struct EcamEntry<M> {
    pub segment_group: u16,
    pub bus_start: u8,
    pub bus_end: u8,
    pub window: Option<M>,
}

/// Memory that a region with these buses takes up.
pub open spec fn ecam_len(bus_start: u8, bus_end: u8) -> int {
    (bus_end - bus_start + 1) * ECAM_BUS_LEN
}

/// Size of the memory window for a region with these buses.
pub fn ecam_window_len(bus_start: u8, bus_end: u8) -> (len: usize)
    requires
        bus_start <= bus_end,
    ensures
        len == ecam_len(bus_start, bus_end),
{
    ((bus_end - bus_start) as usize + 1) * ECAM_BUS_LEN
}

/// A range of buses and the memory that maps their configuration spaces.
pub struct PciEcamRegion<M> {
    pub segment_group: u16,
    pub bus_start: u8,
    pub bus_end: u8,
    pub mmio: M,
}

impl<M: MmioAccess> PciEcamRegion<M> {
    pub open spec fn wf(&self) -> bool {
        &&& self.bus_start <= self.bus_end
        &&& self.bytes().len() == ecam_len(self.bus_start, self.bus_end)
    }

    /// The memory behind the region.
    pub open spec fn bytes(&self) -> Seq<u8> {
        self.mmio.bytes()
    }

    pub open spec fn holds(&self, bdf: PciBdf) -> bool {
        &&& self.segment_group == bdf.segment
        &&& self.bus_start <= bdf.bus <= self.bus_end
        &&& bdf.device < 32
        &&& bdf.function < 8
    }

    /// Where the configuration space of a function begins.
    pub open spec fn base(&self, bdf: PciBdf) -> int {
        (bdf.bus - self.bus_start) * 0x10_0000 + bdf.device * 0x8000 + bdf.function * 0x1000
    }

    /// Where a register of a function is.
    pub open spec fn location(&self, bdf: PciBdf, offset: u16) -> Option<int> {
        if self.holds(bdf) && offset < CONFIG_SPACE_LEN {
            Some(self.base(bdf) + offset)
        } else {
            None
        }
    }

    proof fn lemma_base(&self, bdf: PciBdf)
        requires
            self.wf(),
            self.holds(bdf),
        ensures
            0 <= self.base(bdf),
            self.base(bdf) + CONFIG_SPACE_LEN <= self.bytes().len(),
    {
    }

    proof fn lemma_bases_apart(&self, a: PciBdf, b: PciBdf)
        requires
            self.holds(a),
            self.holds(b),
            a != b,
        ensures
            self.base(a) + CONFIG_SPACE_LEN <= self.base(b) || self.base(b) + CONFIG_SPACE_LEN
                <= self.base(a),
    {
    }

    /// Every register of a function of the region lies inside the window of the
    /// region, and no two of them lie at one place.
    pub proof fn law_registers_lie_apart(
        &self,
        a: PciBdf,
        first: u16,
        b: PciBdf,
        second: u16,
    )
        requires
            self.bus_start <= self.bus_end,
        ensures
            self.location(a, first) is Some <==> self.holds(a) && first < CONFIG_SPACE_LEN,
            self.location(a, first) matches Some(at) ==> 0 <= at < ecam_len(
                self.bus_start,
                self.bus_end,
            ),
            self.location(a, first) is Some && self.location(a, first) == self.location(b, second)
                ==> a == b && first == second,
    {
        if self.holds(a) && self.holds(b) && a != b {
            self.lemma_bases_apart(a, b);
        }
    }

    fn contains(&self, bdf: PciBdf) -> (contains: bool)
        ensures
            contains == self.holds(bdf),
    {
        self.segment_group == bdf.segment && self.bus_start <= bdf.bus && bdf.bus <= self.bus_end
            && bdf.device < 32 && bdf.function < 8
    }

    /// Where a register of a function is inside the window.
    pub fn register_offset(&self, bdf: PciBdf, offset: u16) -> (location: Option<usize>)
        requires
            self.bus_start <= self.bus_end,
        ensures
            location is Some <==> self.holds(bdf) && offset < CONFIG_SPACE_LEN,
            location matches Some(at) ==> at < ecam_len(self.bus_start, self.bus_end),
            match location {
                Some(at) => self.location(bdf, offset) == Some(at as int),
                None => self.location(bdf, offset) is None,
            },
    {
        if !self.contains(bdf) || offset >= CONFIG_SPACE_LEN {
            return None;
        }
        let bus: usize = (bdf.bus - self.bus_start) as usize;
        let device: usize = bdf.device as usize;
        let function: usize = bdf.function as usize;
        let register: usize = offset as usize;
        assert((bus << 20) | (device << 15) | (function << 12) | register == bus * 0x10_0000
            + device * 0x8000 + function * 0x1000 + register) by (bit_vector)
            requires
                bus < 256,
                device < 32,
                function < 8,
                register < 0x1000,
        ;
        Some((bus << 20) | (device << 15) | (function << 12) | register)
    }

    fn read_u8(&self, bdf: PciBdf, offset: u16) -> (value: Option<u8>)
        requires
            self.wf(),
        ensures
            value == (match self.location(bdf, offset) {
                Some(at) => Some(self.bytes()[at]),
                None => None,
            }),
    {
        match self.register_offset(bdf, offset) {
            Some(at) => self.mmio.read_u8(at),
            None => None,
        }
    }

    fn read_u16(&self, bdf: PciBdf, offset: u16) -> (value: Option<u16>)
        requires
            self.wf(),
        ensures
            value == (match self.location(bdf, offset) {
                Some(at) => if at + 2 <= self.bytes().len() {
                    Some(half_at(self.bytes(), at))
                } else {
                    None
                },
                None => None,
            }),
    {
        match self.register_offset(bdf, offset) {
            Some(at) => self.mmio.read_u16(at),
            None => None,
        }
    }

    fn read_u32(&self, bdf: PciBdf, offset: u16) -> (value: Option<u32>)
        requires
            self.wf(),
        ensures
            value == (match self.location(bdf, offset) {
                Some(at) => if at + 4 <= self.bytes().len() {
                    Some(word_at(self.bytes(), at))
                } else {
                    None
                },
                None => None,
            }),
    {
        match self.register_offset(bdf, offset) {
            Some(at) => self.mmio.read_u32(at),
            None => None,
        }
    }

    /// Whether this is the same region over other memory.
    pub open spec fn same_place(&self, other: &Self) -> bool {
        &&& self.segment_group == other.segment_group
        &&& self.bus_start == other.bus_start
        &&& self.bus_end == other.bus_end
    }

    fn write_u8(&mut self, bdf: PciBdf, offset: u16, value: u8) -> (written: bool)
        requires
            old(self).wf(),
        ensures
            final(self).wf(),
            final(self).same_place(old(self)),
            written == old(self).location(bdf, offset) is Some,
            final(self).bytes() == (match old(self).location(bdf, offset) {
                Some(at) => old(self).bytes().update(at, value),
                None => old(self).bytes(),
            }),
    {
        match self.register_offset(bdf, offset) {
            Some(at) => self.mmio.write_u8(at, value),
            None => false,
        }
    }

    fn write_u16(&mut self, bdf: PciBdf, offset: u16, value: u16) -> (written: bool)
        requires
            old(self).wf(),
        ensures
            final(self).wf(),
            final(self).same_place(old(self)),
            written == (match old(self).location(bdf, offset) {
                Some(at) => at + 2 <= old(self).bytes().len(),
                None => false,
            }),
            final(self).bytes() == (match old(self).location(bdf, offset) {
                Some(at) => if written {
                    with_half(old(self).bytes(), at, value)
                } else {
                    old(self).bytes()
                },
                None => old(self).bytes(),
            }),
    {
        match self.register_offset(bdf, offset) {
            Some(at) => self.mmio.write_u16(at, value),
            None => false,
        }
    }

    fn write_u32(&mut self, bdf: PciBdf, offset: u16, value: u32) -> (written: bool)
        requires
            old(self).wf(),
        ensures
            final(self).wf(),
            final(self).same_place(old(self)),
            written == (match old(self).location(bdf, offset) {
                Some(at) => at + 4 <= old(self).bytes().len(),
                None => false,
            }),
            final(self).bytes() == (match old(self).location(bdf, offset) {
                Some(at) => if written {
                    with_word(old(self).bytes(), at, value)
                } else {
                    old(self).bytes()
                },
                None => old(self).bytes(),
            }),
    {
        match self.register_offset(bdf, offset) {
            Some(at) => self.mmio.write_u32(at, value),
            None => false,
        }
    }
}

/// ECAM-backed PCI configuration-space accessor discovered from ACPI MCFG.
pub struct PciEcamConfig<M> {
    regions: Vec<PciEcamRegion<M>>,
}

impl<M: MmioAccess> PciEcamConfig<M> {
    pub closed spec fn regions(&self) -> Seq<PciEcamRegion<M>> {
        self.regions@
    }

    /// Position of the first region that holds the function, from a position
    /// on; the number of regions where none does.
    pub open spec fn slot_from(&self, bdf: PciBdf, from: int) -> int
        decreases self.regions().len() - from,
    {
        if from >= self.regions().len() {
            self.regions().len() as int
        } else if self.regions()[from].holds(bdf) {
            from
        } else {
            self.slot_from(bdf, from + 1)
        }
    }

    pub open spec fn slot(&self, bdf: PciBdf) -> int {
        self.slot_from(bdf, 0)
    }

    proof fn lemma_slot(&self, bdf: PciBdf, from: int)
        requires
            0 <= from <= self.regions().len(),
        ensures
            from <= self.slot_from(bdf, from) <= self.regions().len(),
            self.slot_from(bdf, from) < self.regions().len() ==> self.regions()[self.slot_from(
                bdf,
                from,
            )].holds(bdf),
        decreases self.regions().len() - from,
    {
        if from < self.regions().len() && !self.regions()[from].holds(bdf) {
            self.lemma_slot(bdf, from + 1);
        }
    }

    fn region(&self, bdf: PciBdf) -> (slot: Option<usize>)
        ensures
            match slot {
                Some(i) => i == self.slot(bdf) && i < self.regions().len()
                    && self.regions()[i as int].holds(bdf),
                None => self.slot(bdf) == self.regions().len(),
            },
    {
        let mut i: usize = 0;
        while i < self.regions.len()
            invariant
                i <= self.regions@.len(),
                self.slot(bdf) == self.slot_from(bdf, i as int),
            decreases self.regions@.len() - i,
        {
            if self.regions[i].contains(bdf) {
                return Some(i);
            }
            i = i + 1;
        }
        None
    }

    /// What the firmware's entries come to: no entry, or one that cannot be
    /// mapped, is no configuration access at all.
    pub open spec fn discovered(tables: Option<Seq<EcamEntry<M>>>) -> Result<
        Seq<PciEcamRegion<M>>,
        IrqError,
    > {
        match tables {
            None => Err(IrqError::NotSupported),
            Some(entries) => if entries.len() == 0 || exists|i: int|
                0 <= i < entries.len() && (#[trigger] entries[i]).window is None {
                Err(IrqError::NotSupported)
            } else {
                Ok(
                    entries.map_values(
                        |entry: EcamEntry<M>|
                            PciEcamRegion {
                                segment_group: entry.segment_group,
                                bus_start: entry.bus_start,
                                bus_end: entry.bus_end,
                                mmio: entry.window->0,
                            },
                    ),
                )
            },
        }
    }

    /// Builds the accessor from what the firmware tables list; `None` where
    /// there are no such tables.
    pub fn discover_from_firmware(tables: Option<Vec<EcamEntry<M>>>) -> (result: Result<
        Self,
        IrqError,
    >)
        requires
            tables matches Some(entries) ==> forall|i: int|
                0 <= i < entries@.len() ==> {
                    let entry = #[trigger] entries@[i];
                    &&& entry.bus_start <= entry.bus_end
                    &&& entry.window matches Some(window) ==> window.bytes().len() == ecam_len(
                        entry.bus_start,
                        entry.bus_end,
                    )
                },
        ensures
            ({
                let listed = match tables {
                    Some(entries) => Some(entries@),
                    None => None,
                };
                match result {
                    Ok(config) => config.wf() && Self::discovered(listed) == Ok::<
                        Seq<PciEcamRegion<M>>,
                        IrqError,
                    >(config.regions()),
                    Err(error) => Self::discovered(listed) == Err::<
                        Seq<PciEcamRegion<M>>,
                        IrqError,
                    >(error),
                }
            }),
    {
        let entries = match tables {
            Some(entries) => entries,
            None => {
                return Err(IrqError::NotSupported);
            },
        };
        let ghost listed = entries@;
        let mut regions: Vec<PciEcamRegion<M>> = Vec::new();
        for entry in iter: entries
            invariant
                iter.seq() == listed,
                tables matches Some(v) && v@ == listed,
                regions@.len() == iter.index(),
                forall|i: int|
                    0 <= i < listed.len() ==> {
                        let entry = #[trigger] listed[i];
                        &&& entry.bus_start <= entry.bus_end
                        &&& entry.window matches Some(window) ==> window.bytes().len() == ecam_len(
                            entry.bus_start,
                            entry.bus_end,
                        )
                    },
                forall|i: int|
                    0 <= i < regions@.len() ==> {
                        let entry = #[trigger] listed[i];
                        &&& entry.window is Some
                        &&& regions@[i].wf()
                        &&& regions@[i] == PciEcamRegion {
                            segment_group: entry.segment_group,
                            bus_start: entry.bus_start,
                            bus_end: entry.bus_end,
                            mmio: entry.window->0,
                        }
                    },
        {
            assert(entry == listed[regions@.len() as int]);
            match entry.window {
                Some(window) => {
                    regions.push(
                        PciEcamRegion {
                            segment_group: entry.segment_group,
                            bus_start: entry.bus_start,
                            bus_end: entry.bus_end,
                            mmio: window,
                        },
                    );
                },
                None => {
                    return Err(IrqError::NotSupported);
                },
            }
        }
        if regions.len() == 0 {
            return Err(IrqError::NotSupported);
        }
        let config = PciEcamConfig { regions };
        proof {
            assert(Self::discovered(Some(listed)) is Ok);
            assert(config.regions() =~= Self::discovered(Some(listed))->Ok_0);
            assert forall|i: int| 0 <= i < config.regions().len() implies (
            #[trigger] config.regions()[i]).wf() by {
                assert(listed[i].window is Some);
            }
        }
        Ok(config)
    }

    /// Segment group and first and last bus of a region.
    pub fn buses(&self, index: usize) -> (buses: (u16, u8, u8))
        requires
            self.wf(),
            index < self.regions().len(),
        ensures
            buses.0 == self.regions()[index as int].segment_group,
            buses.1 == self.regions()[index as int].bus_start,
            buses.2 == self.regions()[index as int].bus_end,
            buses.1 <= buses.2,
    {
        let region = &self.regions[index];
        assert(self.regions()[index as int].wf());
        (region.segment_group, region.bus_start, region.bus_end)
    }

    /// Return the number of discovered ECAM regions.
    pub fn region_count(&self) -> (count: usize)
        ensures
            count == self.regions().len(),
    {
        self.regions.len()
    }
}

impl<M: MmioAccess> PciEcamRegion<M> {
    /// The configuration space of a function.
    pub open spec fn page(&self, bdf: PciBdf) -> Seq<u8> {
        self.bytes().subrange(self.base(bdf), self.base(bdf) + CONFIG_SPACE_LEN)
    }
}

impl<M: MmioAccess> PciEcamConfig<M> {
    /// Whether a write through the region of `bdf` lies between the two.
    spec fn written(before: &Self, after: &Self, bdf: PciBdf) -> bool {
        let i = before.slot(bdf);
        &&& after.regions().len() == before.regions().len()
        &&& 0 <= i < before.regions().len()
        &&& before.regions()[i].holds(bdf)
        &&& after.regions()[i].same_place(&before.regions()[i])
        &&& after.regions()[i].wf()
        &&& forall|j: int|
            0 <= j < before.regions().len() && j != i ==> after.regions()[j] == #[trigger] before.regions()[j]
    }

    proof fn lemma_slots_kept(before: &Self, after: &Self, bdf: PciBdf, other: PciBdf, from: int)
        requires
            Self::written(before, after, bdf),
            0 <= from <= before.regions().len(),
        ensures
            after.slot_from(other, from) == before.slot_from(other, from),
        decreases before.regions().len() - from,
    {
        if from < before.regions().len() {
            let b = before.regions()[from];
            assert(after.regions()[from].holds(other) == b.holds(other));
            Self::lemma_slots_kept(before, after, bdf, other, from + 1);
        }
    }

    /// Such a write keeps the regions well-formed.
    proof fn lemma_after_write(&self, before: &Self, bdf: PciBdf)
        requires
            before.wf(),
            Self::written(before, self, bdf),
        ensures
            self.wf(),
            forall|other: PciBdf| #[trigger] self.slot(other) == before.slot(other),
    {
        assert forall|other: PciBdf| #[trigger] self.slot(other) == before.slot(other) by {
            Self::lemma_slots_kept(before, self, bdf, other, 0);
        }
        assert forall|j: int| 0 <= j < self.regions().len() implies #[trigger] self.regions()[j].wf() by {
            if j != before.slot(bdf) {
                assert(before.regions()[j].wf());
            }
        }
    }

    /// A write inside the page of `bdf` changes that page only.
    proof fn lemma_spaces_after(&self, before: &Self, bdf: PciBdf)
        requires
            before.wf(),
            self.wf(),
            Self::written(before, self, bdf),
            forall|j: int|
                {
                    let region = before.regions()[before.slot(bdf)];
                    0 <= j < region.bytes().len() && !(region.base(bdf) <= j < region.base(bdf)
                        + CONFIG_SPACE_LEN) ==> #[trigger] self.regions()[before.slot(
                        bdf,
                    )].bytes()[j] == region.bytes()[j]
                },
        ensures
            self.spaces() == put_space(
                before.spaces(),
                bdf,
                self.regions()[before.slot(bdf)].page(bdf),
            ),
    {
        let i = before.slot(bdf);
        let region = before.regions()[i];
        self.lemma_after_write(before, bdf);
        let expected = put_space(before.spaces(), bdf, self.regions()[i].page(bdf));
        assert(self.spaces().dom() =~= expected.dom()) by {
            assert forall|other: PciBdf| self.spaces().dom().contains(other) == expected.dom().contains(other) by {
                assert(self.slot(other) == before.slot(other));
            }
        }
        assert forall|other: PciBdf| self.spaces().dom().contains(other) implies self.spaces()[other] == expected[other] by {
            assert(self.slot(other) == before.slot(other));
            before.lemma_slot(other, 0);
            let j = before.slot(other);
            if other != bdf && j == i {
                assert(before.regions()[i].wf());
                region.lemma_bases_apart(other, bdf);
                region.lemma_base(other);
                assert(self.regions()[i].page(other) =~= region.page(other));
            }
        }
        assert(self.spaces() =~= expected);
    }
}

impl<M: MmioAccess> PciConfigAccess for PciEcamConfig<M> {
    closed spec fn wf(&self) -> bool {
        forall|i: int| 0 <= i < self.regions().len() ==> (#[trigger] self.regions()[i]).wf()
    }

    closed spec fn spaces(&self) -> Spaces {
        Map::new(
            |bdf: PciBdf| self.slot(bdf) < self.regions().len(),
            |bdf: PciBdf| self.regions()[self.slot(bdf)].page(bdf),
        )
    }

    proof fn lemma_spaces(&self) {
        assert forall|bdf: PciBdf| self.spaces().dom().contains(bdf) implies (
        #[trigger] self.spaces()[bdf]).len() == CONFIG_SPACE_LEN by {
            self.lemma_slot(bdf, 0);
            self.regions()[self.slot(bdf)].lemma_base(bdf);
        }
    }

    fn contains(&self, bdf: PciBdf) -> (contains: bool) {
        self.region(bdf).is_some()
    }

    fn read_u8(&self, bdf: PciBdf, offset: u16) -> (value: u8) {
        match self.region(bdf) {
            Some(i) => {
                proof {
                    self.regions()[i as int].lemma_base(bdf);
                }
                match self.regions[i].read_u8(bdf, offset) {
                    Some(value) => value,
                    None => u8::MAX,
                }
            },
            None => u8::MAX,
        }
    }

    fn read_u16(&self, bdf: PciBdf, offset: u16) -> (value: u16) {
        match self.region(bdf) {
            Some(i) => {
                proof {
                    self.regions()[i as int].lemma_base(bdf);
                }
                match self.regions[i].read_u16(bdf, offset) {
                    Some(value) => value,
                    None => u16::MAX,
                }
            },
            None => u16::MAX,
        }
    }

    fn read_u32(&self, bdf: PciBdf, offset: u16) -> (value: u32) {
        match self.region(bdf) {
            Some(i) => {
                proof {
                    self.regions()[i as int].lemma_base(bdf);
                }
                match self.regions[i].read_u32(bdf, offset) {
                    Some(value) => value,
                    None => u32::MAX,
                }
            },
            None => u32::MAX,
        }
    }

    fn write_u8(&mut self, bdf: PciBdf, offset: u16, value: u8) {
        match self.region(bdf) {
            Some(i) => {
                self.regions[i].write_u8(bdf, offset, value);
                proof {
                    self.lemma_after_write(old(self), bdf);
                    if offset + 1 <= CONFIG_SPACE_LEN {
                        let before = old(self).regions()[i as int];
                        before.lemma_base(bdf);
                        let at = before.base(bdf) + offset;
                        assert(self.regions()[i as int].bytes() == before.bytes().update(at, value));
                        assert forall|j: int|
                            0 <= j < before.bytes().len() && !(before.base(bdf) <= j < before.base(
                                bdf,
                            ) + CONFIG_SPACE_LEN) implies #[trigger] self.regions()[i as int].bytes()[j] == before.bytes()[j] by {}
                        assert(self.regions()[i as int].page(bdf) =~= before.page(bdf).update(offset as int, value));
                        self.lemma_spaces_after(old(self), bdf);
                    } else if offset >= CONFIG_SPACE_LEN {
                        assert(self.regions()[i as int].page(bdf) =~= old(self).regions()[i as int].page(bdf));
                        self.lemma_spaces_after(old(self), bdf);
                        assert(self.spaces() =~= old(self).spaces());
                    }
                }
            },
            None => {
                assert(self.spaces() == old(self).spaces());
            },
        }
    }

    fn write_u16(&mut self, bdf: PciBdf, offset: u16, value: u16) {
        match self.region(bdf) {
            Some(i) => {
                self.regions[i].write_u16(bdf, offset, value);
                proof {
                    self.lemma_after_write(old(self), bdf);
                    if offset + 2 <= CONFIG_SPACE_LEN {
                        let before = old(self).regions()[i as int];
                        before.lemma_base(bdf);
                        let at = before.base(bdf) + offset;
                        assert(self.regions()[i as int].bytes() == with_half(before.bytes(), at, value));
                        assert forall|j: int|
                            0 <= j < before.bytes().len() && !(before.base(bdf) <= j < before.base(
                                bdf,
                            ) + CONFIG_SPACE_LEN) implies #[trigger] self.regions()[i as int].bytes()[j] == before.bytes()[j] by {}
                        assert(self.regions()[i as int].page(bdf) =~= with_half(before.page(bdf), offset as int, value));
                        self.lemma_spaces_after(old(self), bdf);
                    } else if offset >= CONFIG_SPACE_LEN {
                        assert(self.regions()[i as int].page(bdf) =~= old(self).regions()[i as int].page(bdf));
                        self.lemma_spaces_after(old(self), bdf);
                        assert(self.spaces() =~= old(self).spaces());
                    }
                }
            },
            None => {
                assert(self.spaces() == old(self).spaces());
            },
        }
    }

    fn write_u32(&mut self, bdf: PciBdf, offset: u16, value: u32) {
        match self.region(bdf) {
            Some(i) => {
                self.regions[i].write_u32(bdf, offset, value);
                proof {
                    self.lemma_after_write(old(self), bdf);
                    if offset + 4 <= CONFIG_SPACE_LEN {
                        let before = old(self).regions()[i as int];
                        before.lemma_base(bdf);
                        let at = before.base(bdf) + offset;
                        assert(self.regions()[i as int].bytes() == with_word(before.bytes(), at, value));
                        assert forall|j: int|
                            0 <= j < before.bytes().len() && !(before.base(bdf) <= j < before.base(
                                bdf,
                            ) + CONFIG_SPACE_LEN) implies #[trigger] self.regions()[i as int].bytes()[j] == before.bytes()[j] by {}
                        assert(self.regions()[i as int].page(bdf) =~= with_word(before.page(bdf), offset as int, value));
                        self.lemma_spaces_after(old(self), bdf);
                    } else if offset >= CONFIG_SPACE_LEN {
                        assert(self.regions()[i as int].page(bdf) =~= old(self).regions()[i as int].page(bdf));
                        self.lemma_spaces_after(old(self), bdf);
                        assert(self.spaces() =~= old(self).spaces());
                    }
                }
            },
            None => {
                assert(self.spaces() == old(self).spaces());
            },
        }
    }
}

} // verus!
