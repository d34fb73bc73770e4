//! Device memory and the order of bytes in it.

use vstd::prelude::*;

verus! {

/// The number whose little-endian bytes these are.
pub open spec fn le_half(low: u8, high: u8) -> u16 {
    (low + 0x100 * high) as u16
}

/// The number whose little-endian bytes these are.
pub open spec fn le_word(b0: u8, b1: u8, b2: u8, b3: u8) -> u32 {
    (b0 + 0x100 * b1 + 0x1_0000 * b2 + 0x100_0000 * b3) as u32
}

/// The little-endian half word at a position.
pub open spec fn half_at(bytes: Seq<u8>, offset: int) -> u16 {
    le_half(bytes[offset], bytes[offset + 1])
}

/// The little-endian word at a position.
pub open spec fn word_at(bytes: Seq<u8>, offset: int) -> u32 {
    le_word(bytes[offset], bytes[offset + 1], bytes[offset + 2], bytes[offset + 3])
}

/// The bytes after a little-endian half word has been stored.
pub open spec fn with_half(bytes: Seq<u8>, offset: int, value: u16) -> Seq<u8> {
    bytes.update(offset, (value % 0x100) as u8).update(offset + 1, (value / 0x100) as u8)
}

/// The bytes after a little-endian word has been stored.
pub open spec fn with_word(bytes: Seq<u8>, offset: int, value: u32) -> Seq<u8> {
    bytes.update(offset, (value % 0x100) as u8).update(
        offset + 1,
        ((value / 0x100) % 0x100) as u8,
    ).update(offset + 2, ((value / 0x1_0000) % 0x100) as u8).update(
        offset + 3,
        (value / 0x100_0000) as u8,
    )
}

/// Every half word reads back as it was stored.
pub proof fn law_half_reads_back(bytes: Seq<u8>, offset: int, value: u16)
    requires
        0 <= offset,
        offset + 2 <= bytes.len(),
    ensures
        half_at(with_half(bytes, offset, value), offset) == value,
{
}

/// Every word reads back as it was stored.
pub proof fn law_word_reads_back(bytes: Seq<u8>, offset: int, value: u32)
    requires
        0 <= offset,
        offset + 4 <= bytes.len(),
    ensures
        word_at(with_word(bytes, offset, value), offset) == value,
{
}

/// A window of device memory. An access that does not fit into the window is
/// refused.
pub trait MmioAccess {
    /// The bytes behind the window.
    spec fn bytes(&self) -> Seq<u8>;

    /// Number of bytes behind the window.
    fn len(&self) -> (len: usize)
        ensures
            len == self.bytes().len(),
    ;

    fn read_u8(&self, offset: usize) -> (value: Option<u8>)
        ensures
            value == (if offset < self.bytes().len() {
                Some(self.bytes()[offset as int])
            } else {
                None
            }),
    ;

    fn read_u16(&self, offset: usize) -> (value: Option<u16>)
        ensures
            value == (if offset + 2 <= self.bytes().len() {
                Some(half_at(self.bytes(), offset as int))
            } else {
                None
            }),
    ;

    fn read_u32(&self, offset: usize) -> (value: Option<u32>)
        ensures
            value == (if offset + 4 <= self.bytes().len() {
                Some(word_at(self.bytes(), offset as int))
            } else {
                None
            }),
    ;

    fn write_u8(&mut self, offset: usize, value: u8) -> (written: bool)
        ensures
            written == (offset < old(self).bytes().len()),
            final(self).bytes() == (if written {
                old(self).bytes().update(offset as int, value)
            } else {
                old(self).bytes()
            }),
    ;

    fn write_u16(&mut self, offset: usize, value: u16) -> (written: bool)
        ensures
            written == (offset + 2 <= old(self).bytes().len()),
            final(self).bytes() == (if written {
                with_half(old(self).bytes(), offset as int, value)
            } else {
                old(self).bytes()
            }),
    ;

    fn write_u32(&mut self, offset: usize, value: u32) -> (written: bool)
        ensures
            written == (offset + 4 <= old(self).bytes().len()),
            final(self).bytes() == (if written {
                with_word(old(self).bytes(), offset as int, value)
            } else {
                old(self).bytes()
            }),
    ;
}

/// A window whose bytes are ordinary memory of the kernel.
pub struct MmioBuffer {
    cells: Vec<u8>,
}

impl MmioBuffer {
    pub fn new(cells: Vec<u8>) -> (window: Self)
        ensures
            window.bytes() == cells@,
    {
        MmioBuffer { cells }
    }
}

impl MmioAccess for MmioBuffer {
    closed spec fn bytes(&self) -> Seq<u8> {
        self.cells@
    }

    fn len(&self) -> (len: usize) {
        self.cells.len()
    }

    fn read_u8(&self, offset: usize) -> (value: Option<u8>) {
        if offset < self.cells.len() {
            Some(self.cells[offset])
        } else {
            None
        }
    }

    fn read_u16(&self, offset: usize) -> (value: Option<u16>) {
        let len: usize = self.cells.len();
        if len < 2 || offset > len - 2 {
            return None;
        }
        Some(self.cells[offset] as u16 + 0x100 * (self.cells[offset + 1] as u16))
    }

    fn read_u32(&self, offset: usize) -> (value: Option<u32>) {
        let len: usize = self.cells.len();
        if len < 4 || offset > len - 4 {
            return None;
        }
        Some(
            self.cells[offset] as u32 + 0x100 * (self.cells[offset + 1] as u32) + 0x1_0000 * (
            self.cells[offset + 2] as u32) + 0x100_0000 * (self.cells[offset + 3] as u32),
        )
    }

    fn write_u8(&mut self, offset: usize, value: u8) -> (written: bool) {
        if offset < self.cells.len() {
            self.cells.set(offset, value);
            true
        } else {
            false
        }
    }

    fn write_u16(&mut self, offset: usize, value: u16) -> (written: bool) {
        let len: usize = self.cells.len();
        if len < 2 || offset > len - 2 {
            return false;
        }
        self.cells.set(offset, (value % 0x100) as u8);
        self.cells.set(offset + 1, (value / 0x100) as u8);
        true
    }

    fn write_u32(&mut self, offset: usize, value: u32) -> (written: bool) {
        let len: usize = self.cells.len();
        if len < 4 || offset > len - 4 {
            return false;
        }
        self.cells.set(offset, (value % 0x100) as u8);
        self.cells.set(offset + 1, ((value / 0x100) % 0x100) as u8);
        self.cells.set(offset + 2, ((value / 0x1_0000) % 0x100) as u8);
        self.cells.set(offset + 3, (value / 0x100_0000) as u8);
        true
    }
}

} // verus!
