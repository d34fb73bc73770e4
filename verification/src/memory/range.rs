//! Half-open ranges of virtual addresses.

use vstd::prelude::*;

verus! {

/// Half-open range `start..end` of virtual addresses.
#[derive(Debug, Clone, Copy, PartialEq, Eq, Structural)]
pub struct VmRange {
    start: usize,
    end: usize,
}

impl VmRange {
    pub closed spec fn first(&self) -> usize {
        self.start
    }

    pub closed spec fn limit(&self) -> usize {
        self.end
    }

    /// The addresses that the range covers.
    pub open spec fn covers(&self, addr: int) -> bool {
        self.first() <= addr < self.limit()
    }

    /// A range, unless it would end before it starts.
    pub fn new(start: usize, end: usize) -> (range: Option<Self>)
        ensures
            match range {
                Some(r) => start <= end && r.first() == start && r.limit() == end,
                None => end < start,
            },
    {
        if start <= end {
            Some(VmRange { start, end })
        } else {
            None
        }
    }

    pub fn start(&self) -> (start: usize)
        ensures
            start == self.first(),
    {
        self.start
    }

    pub fn end(&self) -> (end: usize)
        ensures
            end == self.limit(),
    {
        self.end
    }

    /// Number of bytes in the range.
    pub fn len(&self) -> (len: usize)
        requires
            self.first() <= self.limit(),
        ensures
            len == self.limit() - self.first(),
    {
        self.end - self.start
    }

    pub fn contains(&self, addr: usize) -> (inside: bool)
        ensures
            inside == self.covers(addr as int),
    {
        self.start <= addr && addr < self.end
    }
}

} // verus!
