//! Enumeration of the functions that are present.

use super::config::{PciBdf, PciConfigAccess, Spaces, space_of};
use super::ecam::{PciEcamConfig, PciEcamRegion};
use crate::device::mmio::{MmioAccess, half_at};
use vstd::prelude::*;

verus! {

/// What the vendor register reads.
pub open spec fn vendor(spaces: Spaces, bdf: PciBdf) -> u16 {
    half_at(space_of(spaces, bdf), 0)
}

/// A function answers where its vendor is not all ones.
pub open spec fn answers(spaces: Spaces, bdf: PciBdf) -> bool {
    vendor(spaces, bdf) != u16::MAX
}

/// The functions from 1 up to a limit that answer.
pub open spec fn further_functions(
    spaces: Spaces,
    segment: u16,
    bus: u8,
    device: u8,
    limit: int,
) -> Seq<PciBdf>
    decreases limit,
{
    if limit <= 1 {
        Seq::empty()
    } else {
        let rest = further_functions(spaces, segment, bus, device, limit - 1);
        let bdf = PciBdf { segment, bus, device, function: (limit - 1) as u8 };
        if answers(spaces, bdf) {
            rest.push(bdf)
        } else {
            rest
        }
    }
}

/// The functions of a device: none where the first does not answer, and only
/// that one where it does not say that the device has several.
pub open spec fn functions_of_device(spaces: Spaces, segment: u16, bus: u8, device: u8) -> Seq<
    PciBdf,
> {
    let first = PciBdf { segment, bus, device, function: 0 };
    if !answers(spaces, first) {
        Seq::empty()
    } else if space_of(spaces, first)[0x0e] & 0x80 == 0 {
        seq![first]
    } else {
        seq![first] + further_functions(spaces, segment, bus, device, 8)
    }
}

/// The functions of the devices below a limit.
pub open spec fn functions_of_bus(spaces: Spaces, segment: u16, bus: u8, limit: int) -> Seq<PciBdf>
    decreases limit,
{
    if limit <= 0 {
        Seq::empty()
    } else {
        functions_of_bus(spaces, segment, bus, limit - 1) + functions_of_device(
            spaces,
            segment,
            bus,
            (limit - 1) as u8,
        )
    }
}

/// The functions of a number of buses from `start` on.
pub open spec fn functions_of_buses(spaces: Spaces, segment: u16, start: u8, count: int) -> Seq<
    PciBdf,
>
    decreases count,
{
    if count <= 0 {
        Seq::empty()
    } else {
        functions_of_buses(spaces, segment, start, count - 1) + functions_of_bus(
            spaces,
            segment,
            (start + count - 1) as u8,
            32,
        )
    }
}

/// The functions of the first regions.
pub open spec fn functions_of_regions<M: MmioAccess>(
    spaces: Spaces,
    regions: Seq<PciEcamRegion<M>>,
    count: int,
) -> Seq<PciBdf>
    decreases count,
{
    if count <= 0 {
        Seq::empty()
    } else {
        let region = regions[count - 1];
        functions_of_regions(spaces, regions, count - 1) + functions_of_buses(
            spaces,
            region.segment_group,
            region.bus_start,
            region.bus_end - region.bus_start + 1,
        )
    }
}

fn device_functions<A: PciConfigAccess>(access: &A, segment: u16, bus: u8, device: u8) -> (found:
    Vec<PciBdf>)
    requires
        access.wf(),
    ensures
        found@ == functions_of_device(access.spaces(), segment, bus, device),
{
    let mut found: Vec<PciBdf> = Vec::new();
    let first = PciBdf::new(segment, bus, device, 0);
    if access.read_u16(first, 0x00) == u16::MAX {
        return found;
    }
    found.push(first);
    if access.read_u8(first, 0x0e) & 0x80 == 0 {
        assert(found@ =~= seq![first]);
        return found;
    }
    let mut function: u8 = 1;
    assert(found@ =~= seq![first] + further_functions(access.spaces(), segment, bus, device, 1));
    while function < 8
        invariant
            1 <= function <= 8,
            access.wf(),
            found@ == seq![first] + further_functions(
                access.spaces(),
                segment,
                bus,
                device,
                function as int,
            ),
        decreases 8 - function,
    {
        let bdf = PciBdf::new(segment, bus, device, function);
        if access.read_u16(bdf, 0x00) != u16::MAX {
            found.push(bdf);
        }
        function = function + 1;
        assert(found@ =~= seq![first] + further_functions(
            access.spaces(),
            segment,
            bus,
            device,
            function as int,
        ));
    }
    found
}

fn bus_functions<A: PciConfigAccess>(access: &A, segment: u16, bus: u8) -> (found: Vec<PciBdf>)
    requires
        access.wf(),
    ensures
        found@ == functions_of_bus(access.spaces(), segment, bus, 32),
{
    let mut found: Vec<PciBdf> = Vec::new();
    let mut device: u8 = 0;
    while device < 32
        invariant
            device <= 32,
            access.wf(),
            found@ == functions_of_bus(access.spaces(), segment, bus, device as int),
        decreases 32 - device,
    {
        let mut of_device = device_functions(access, segment, bus, device);
        found.append(&mut of_device);
        device = device + 1;
    }
    found
}

impl<M: MmioAccess> PciEcamConfig<M> {
    /// Every present PCI function visible through the discovered ECAM regions,
    /// in the order of regions, buses, devices and functions.
    pub fn present_functions(&self) -> (found: Vec<PciBdf>)
        requires
            self.wf(),
        ensures
            found@ == functions_of_regions(
                self.spaces(),
                self.regions(),
                self.regions().len() as int,
            ),
    {
        let mut found: Vec<PciBdf> = Vec::new();
        let mut i: usize = 0;
        while i < self.region_count()
            invariant
                i <= self.regions().len(),
                self.wf(),
                found@ == functions_of_regions(self.spaces(), self.regions(), i as int),
            decreases self.regions().len() - i,
        {
            let (segment, start, end) = self.buses(i);
            let mut count: u16 = 0;
            let total: u16 = (end - start) as u16 + 1;
            while count < total
                invariant
                    i < self.regions().len(),
                    self.wf(),
                    segment == self.regions()[i as int].segment_group,
                    start == self.regions()[i as int].bus_start,
                    end == self.regions()[i as int].bus_end,
                    start <= end,
                    total == end - start + 1,
                    count <= total,
                    found@ == functions_of_regions(self.spaces(), self.regions(), i as int)
                        + functions_of_buses(self.spaces(), segment, start, count as int),
                decreases total - count,
            {
                let bus: u8 = (start as u16 + count) as u8;
                let mut of_bus = bus_functions(self, segment, bus);
                found.append(&mut of_bus);
                count = count + 1;
                assert(found@ =~= functions_of_regions(self.spaces(), self.regions(), i as int)
                    + functions_of_buses(self.spaces(), segment, start, count as int));
            }
            i = i + 1;
        }
        found
    }
}

/// Every function that the scan finds answers.
pub proof fn law_scanned_functions_answer<M: MmioAccess>(
    spaces: Spaces,
    regions: Seq<PciEcamRegion<M>>,
    count: int,
    bdf: PciBdf,
)
    requires
        count <= regions.len(),
        functions_of_regions(spaces, regions, count).contains(bdf),
    ensures
        answers(spaces, bdf),
    decreases count,
{
    let all = functions_of_regions(spaces, regions, count);
    let k = choose|k: int| 0 <= k < all.len() && all[k] == bdf;
    if count > 0 {
        let before = functions_of_regions(spaces, regions, count - 1);
        let region = regions[count - 1];
        let buses = region.bus_end - region.bus_start + 1;
        let here = functions_of_buses(spaces, region.segment_group, region.bus_start, buses);
        if k < before.len() {
            assert(before[k] == bdf);
            law_scanned_functions_answer(spaces, regions, count - 1, bdf);
        } else {
            assert(here[k - before.len()] == bdf);
            lemma_buses_answer(spaces, region.segment_group, region.bus_start, buses, bdf);
        }
    }
}

proof fn lemma_buses_answer(spaces: Spaces, segment: u16, start: u8, count: int, bdf: PciBdf)
    requires
        functions_of_buses(spaces, segment, start, count).contains(bdf),
    ensures
        answers(spaces, bdf),
    decreases count,
{
    let all = functions_of_buses(spaces, segment, start, count);
    let k = choose|k: int| 0 <= k < all.len() && all[k] == bdf;
    if count > 0 {
        let before = functions_of_buses(spaces, segment, start, count - 1);
        let bus = (start + count - 1) as u8;
        let here = functions_of_bus(spaces, segment, bus, 32);
        if k < before.len() {
            assert(before[k] == bdf);
            lemma_buses_answer(spaces, segment, start, count - 1, bdf);
        } else {
            assert(here[k - before.len()] == bdf);
            lemma_bus_answers(spaces, segment, bus, 32, bdf);
        }
    }
}

proof fn lemma_bus_answers(spaces: Spaces, segment: u16, bus: u8, limit: int, bdf: PciBdf)
    requires
        functions_of_bus(spaces, segment, bus, limit).contains(bdf),
    ensures
        answers(spaces, bdf),
    decreases limit,
{
    let all = functions_of_bus(spaces, segment, bus, limit);
    let k = choose|k: int| 0 <= k < all.len() && all[k] == bdf;
    if limit > 0 {
        let before = functions_of_bus(spaces, segment, bus, limit - 1);
        let device = (limit - 1) as u8;
        let here = functions_of_device(spaces, segment, bus, device);
        if k < before.len() {
            assert(before[k] == bdf);
            lemma_bus_answers(spaces, segment, bus, limit - 1, bdf);
        } else {
            assert(here[k - before.len()] == bdf);
            if k - before.len() > 0 {
                assert(further_functions(spaces, segment, bus, device, 8)[k - before.len() - 1]
                    == bdf);
                lemma_further_answer(spaces, segment, bus, device, 8, bdf);
            }
        }
    }
}

proof fn lemma_further_answer(
    spaces: Spaces,
    segment: u16,
    bus: u8,
    device: u8,
    limit: int,
    bdf: PciBdf,
)
    requires
        further_functions(spaces, segment, bus, device, limit).contains(bdf),
    ensures
        answers(spaces, bdf),
    decreases limit,
{
    let all = further_functions(spaces, segment, bus, device, limit);
    let k = choose|k: int| 0 <= k < all.len() && all[k] == bdf;
    if limit > 1 {
        let before = further_functions(spaces, segment, bus, device, limit - 1);
        if k < before.len() {
            assert(before[k] == bdf);
            lemma_further_answer(spaces, segment, bus, device, limit - 1, bdf);
        }
    }
}

} // verus!
