//! PCI configuration space.

use crate::device::mmio::{half_at, with_half, with_word, word_at};
use crate::text::{decimal, hex_pair, lemma_decimal, lemma_hex_char, push_decimal, push_hex_pair};
use vstd::prelude::*;
use vstd::string::*;

verus! {

/// Bytes of configuration space of one function.
pub const CONFIG_SPACE_LEN: u16 = 0x1000;

/// Stable PCI address tuple.
#[derive(Debug, Clone, Copy, PartialEq, Eq, PartialOrd, Ord, Structural)]
pub struct PciBdf {
    pub segment: u16,
    pub bus: u8,
    pub device: u8,
    pub function: u8,
}

impl PciBdf {
    /// The text `ssss:bb:dd.f` of the address.
    pub open spec fn name(self) -> Seq<char> {
        hex_pair(self.segment as int / 0x100) + hex_pair(self.segment as int % 0x100) + seq![':']
            + hex_pair(self.bus as int) + seq![':'] + hex_pair(self.device as int) + seq!['.']
            + decimal(self.function as nat)
    }

    /// Create one PCI address tuple.
    pub fn new(segment: u16, bus: u8, device: u8, function: u8) -> (bdf: Self)
        ensures
            bdf == (PciBdf { segment, bus, device, function }),
    {
        PciBdf { segment, bus, device, function }
    }

    /// Return one stable namespace key for this PCI function.
    pub fn object_name(self) -> (name: String)
        ensures
            name@ == self.name(),
    {
        proof {
            reveal_strlit(":");
            reveal_strlit(".");
        }
        let mut name = String::new();
        push_hex_pair(&mut name, (self.segment / 0x100) as u8);
        push_hex_pair(&mut name, (self.segment % 0x100) as u8);
        name.append(":");
        push_hex_pair(&mut name, self.bus);
        name.append(":");
        push_hex_pair(&mut name, self.device);
        name.append(".");
        push_decimal(&mut name, self.function as usize);
        assert(name@ =~= self.name());
        name
    }
}

/// Distinct PCI functions have distinct namespace keys.
pub proof fn law_names_are_distinct(a: PciBdf, b: PciBdf)
    requires
        a.name() == b.name(),
    ensures
        a == b,
{
    let x = a.name();
    let y = b.name();
    assert(x[0] == y[0] && x[1] == y[1] && x[2] == y[2] && x[3] == y[3]);
    assert(x[5] == y[5] && x[6] == y[6] && x[8] == y[8] && x[9] == y[9]);
    lemma_hex_char(a.segment as int / 0x100 / 16 % 16, b.segment as int / 0x100 / 16 % 16);
    lemma_hex_char(a.segment as int / 0x100 % 16, b.segment as int / 0x100 % 16);
    lemma_hex_char(a.segment as int % 0x100 / 16 % 16, b.segment as int % 0x100 / 16 % 16);
    lemma_hex_char(a.segment as int % 0x100 % 16, b.segment as int % 0x100 % 16);
    lemma_hex_char(a.bus as int / 16 % 16, b.bus as int / 16 % 16);
    lemma_hex_char(a.bus as int % 16, b.bus as int % 16);
    lemma_hex_char(a.device as int / 16 % 16, b.device as int / 16 % 16);
    lemma_hex_char(a.device as int % 16, b.device as int % 16);
    assert(x.skip(11) =~= decimal(a.function as nat));
    assert(y.skip(11) =~= decimal(b.function as nat));
    lemma_decimal(a.function as nat, b.function as nat);
}

/// Configuration spaces of the functions that a kernel can reach.
pub type Spaces = Map<PciBdf, Seq<u8>>;

/// The configuration space of a function. A function that cannot be reached
/// reads as all ones.
pub open spec fn space_of(spaces: Spaces, bdf: PciBdf) -> Seq<u8> {
    if spaces.dom().contains(bdf) {
        spaces[bdf]
    } else {
        Seq::new(CONFIG_SPACE_LEN as nat, |i: int| 0xffu8)
    }
}

/// The spaces after a function's space has become `space`. A write to a
/// function that cannot be reached is lost.
pub open spec fn put_space(spaces: Spaces, bdf: PciBdf, space: Seq<u8>) -> Spaces {
    if spaces.dom().contains(bdf) {
        spaces.insert(bdf, space)
    } else {
        spaces
    }
}

pub open spec fn spaces_wf(spaces: Spaces) -> bool {
    forall|bdf: PciBdf|
        spaces.dom().contains(bdf) ==> (#[trigger] spaces[bdf]).len() == CONFIG_SPACE_LEN
}

/// Kernel-private PCI configuration-space accessor.
pub trait PciConfigAccess: Sized {
    spec fn wf(&self) -> bool;

    /// The spaces of the functions within the known regions.
    spec fn spaces(&self) -> Spaces;

    proof fn lemma_spaces(&self)
        requires
            self.wf(),
        ensures
            spaces_wf(self.spaces()),
    ;

    /// Return whether the supplied function falls within one known config
    /// space region.
    fn contains(&self, bdf: PciBdf) -> (contains: bool)
        requires
            self.wf(),
        ensures
            contains == self.spaces().dom().contains(bdf),
    ;

    /// Read one 8-bit register from the supplied PCI function.
    fn read_u8(&self, bdf: PciBdf, offset: u16) -> (value: u8)
        requires
            self.wf(),
        ensures
            value == (if offset < CONFIG_SPACE_LEN {
                space_of(self.spaces(), bdf)[offset as int]
            } else {
                0xff
            }),
    ;

    /// Read one 16-bit register from the supplied PCI function.
    fn read_u16(&self, bdf: PciBdf, offset: u16) -> (value: u16)
        requires
            self.wf(),
        ensures
            offset + 2 <= CONFIG_SPACE_LEN ==> value == half_at(
                space_of(self.spaces(), bdf),
                offset as int,
            ),
            offset >= CONFIG_SPACE_LEN ==> value == u16::MAX,
    ;

    /// Read one 32-bit register from the supplied PCI function.
    fn read_u32(&self, bdf: PciBdf, offset: u16) -> (value: u32)
        requires
            self.wf(),
        ensures
            offset + 4 <= CONFIG_SPACE_LEN ==> value == word_at(
                space_of(self.spaces(), bdf),
                offset as int,
            ),
            offset >= CONFIG_SPACE_LEN ==> value == u32::MAX,
    ;

    /// Read one 64-bit register from the supplied PCI function.
    fn read_u64(&self, bdf: PciBdf, offset: u16) -> (value: u64)
        requires
            self.wf(),
            offset + 4 <= u16::MAX,
        ensures
            offset + 8 <= CONFIG_SPACE_LEN ==> value == word_at(
                space_of(self.spaces(), bdf),
                offset as int,
            ) + 0x1_0000_0000 * word_at(space_of(self.spaces(), bdf), offset + 4),
            offset >= CONFIG_SPACE_LEN ==> value == u64::MAX,
    {
        let low: u32 = self.read_u32(bdf, offset);
        let high: u32 = self.read_u32(bdf, offset + 4);
        low as u64 + 0x1_0000_0000 * (high as u64)
    }

    /// Write one 8-bit register on the supplied PCI function.
    fn write_u8(&mut self, bdf: PciBdf, offset: u16, value: u8)
        requires
            old(self).wf(),
        ensures
            final(self).wf(),
            final(self).spaces() == (if offset < CONFIG_SPACE_LEN {
                put_space(
                    old(self).spaces(),
                    bdf,
                    space_of(old(self).spaces(), bdf).update(offset as int, value),
                )
            } else {
                old(self).spaces()
            }),
    ;

    /// Write one 16-bit register on the supplied PCI function.
    fn write_u16(&mut self, bdf: PciBdf, offset: u16, value: u16)
        requires
            old(self).wf(),
        ensures
            final(self).wf(),
            offset + 2 <= CONFIG_SPACE_LEN ==> final(self).spaces() == put_space(
                old(self).spaces(),
                bdf,
                with_half(space_of(old(self).spaces(), bdf), offset as int, value),
            ),
            offset >= CONFIG_SPACE_LEN ==> final(self).spaces() == old(self).spaces(),
    ;

    /// Write one 32-bit register on the supplied PCI function.
    fn write_u32(&mut self, bdf: PciBdf, offset: u16, value: u32)
        requires
            old(self).wf(),
        ensures
            final(self).wf(),
            offset + 4 <= CONFIG_SPACE_LEN ==> final(self).spaces() == put_space(
                old(self).spaces(),
                bdf,
                with_word(space_of(old(self).spaces(), bdf), offset as int, value),
            ),
            offset >= CONFIG_SPACE_LEN ==> final(self).spaces() == old(self).spaces(),
    ;

    /// Write one 64-bit register on the supplied PCI function.
    fn write_u64(&mut self, bdf: PciBdf, offset: u16, value: u64)
        requires
            old(self).wf(),
            offset + 4 <= u16::MAX,
        ensures
            final(self).wf(),
            offset + 8 <= CONFIG_SPACE_LEN ==> final(self).spaces() == put_space(
                old(self).spaces(),
                bdf,
                with_word(
                    with_word(
                        space_of(old(self).spaces(), bdf),
                        offset as int,
                        (value % 0x1_0000_0000) as u32,
                    ),
                    offset + 4,
                    (value / 0x1_0000_0000) as u32,
                ),
            ),
            offset >= CONFIG_SPACE_LEN ==> final(self).spaces() == old(self).spaces(),
    {
        self.write_u32(bdf, offset, (value % 0x1_0000_0000) as u32);
        self.write_u32(bdf, offset + 4, (value / 0x1_0000_0000) as u32);
        assert(offset + 8 <= CONFIG_SPACE_LEN ==> self.spaces() =~= put_space(
            old(self).spaces(),
            bdf,
            with_word(
                with_word(
                    space_of(old(self).spaces(), bdf),
                    offset as int,
                    (value % 0x1_0000_0000) as u32,
                ),
                offset + 4,
                (value / 0x1_0000_0000) as u32,
            ),
        ));
    }
}

/// The name of a function has twelve characters: the segment in four digits, the
/// bus and the device in two each, and the function in one.
pub proof fn law_name_is_laid_out(bdf: PciBdf)
    requires
        bdf.function < 8,
    ensures
        ({
            let name = bdf.name();
            &&& name.len() == 12
            &&& name.subrange(0, 2) == hex_pair(bdf.segment as int / 0x100)
            &&& name.subrange(2, 4) == hex_pair(bdf.segment as int % 0x100)
            &&& name[4] == ':'
            &&& name.subrange(5, 7) == hex_pair(bdf.bus as int)
            &&& name[7] == ':'
            &&& name.subrange(8, 10) == hex_pair(bdf.device as int)
            &&& name[10] == '.'
            &&& name[11] as int - '0' as int == bdf.function
        }),
{
    let name = bdf.name();
    assert(decimal(bdf.function as nat).len() == 1);
    assert(name.len() == 12);
    assert(name.subrange(0, 2) =~= hex_pair(bdf.segment as int / 0x100));
    assert(name.subrange(2, 4) =~= hex_pair(bdf.segment as int % 0x100));
    assert(name.subrange(5, 7) =~= hex_pair(bdf.bus as int));
    assert(name.subrange(8, 10) =~= hex_pair(bdf.device as int));
    assert(name[11] == decimal(bdf.function as nat)[0]);
}

} // verus!
