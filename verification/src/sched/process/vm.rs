//! Virtual memory of a process: which pages an operation touches, how a failure
//! is reported and undone, and what a page fault of user code leads to.

use vstd::prelude::*;

use super::manager::{ProcessVmError, VmError};
use crate::error::ObjectOrUnderlyingError;
use crate::memory::range::VmRange;
use crate::object::ObjectError;
use crate::sched::user::FaultAttempt;

verus! {

/// Bytes of a page.
pub const PAGE_SIZE: usize = 0x1000;

/// Errors of the page tables.
#[derive(Debug, Clone, Copy, PartialEq, Eq, Structural)]
pub enum PagingError {
    NotMapped,
    AlreadyMapped,
    NoMemory,
    ParentIsHugePage,
    InvalidFrameAddress,
    UnsupportedPageSize,
}

/// A missing page is a missing object; every other error is a bad argument.
pub fn translate_paging_error(error: PagingError) -> (translated: ObjectError)
    ensures
        translated == (if error is NotMapped {
            ObjectError::ObjectNotFound
        } else {
            ObjectError::InvalidArgument
        }),
{
    match error {
        PagingError::NotMapped => ObjectError::ObjectNotFound,
        PagingError::AlreadyMapped => ObjectError::InvalidArgument,
        PagingError::NoMemory
        | PagingError::ParentIsHugePage
        | PagingError::InvalidFrameAddress
        | PagingError::UnsupportedPageSize => ObjectError::InvalidArgument,
    }
}

/// Errors of the logical address space.
#[derive(Debug, Clone, Copy, PartialEq, Eq, Structural)]
pub enum VSpaceError {
    InvalidRange,
    AlreadyMapped,
    NotMapped,
    PermissionDenied,
}

impl VSpaceError {
    pub open spec fn vm(self) -> VmError {
        match self {
            VSpaceError::InvalidRange => VmError::InvalidRange,
            VSpaceError::AlreadyMapped => VmError::AlreadyMapped,
            VSpaceError::NotMapped => VmError::NotMapped,
            VSpaceError::PermissionDenied => VmError::PermissionDenied,
        }
    }

    /// The error of the same name, as an error of the process.
    pub fn process_vm_error(self) -> (error: ProcessVmError)
        ensures
            error == ProcessVmError::Underlying(self.vm()),
    {
        ObjectOrUnderlyingError::Underlying(
            match self {
                VSpaceError::InvalidRange => VmError::InvalidRange,
                VSpaceError::AlreadyMapped => VmError::AlreadyMapped,
                VSpaceError::NotMapped => VmError::NotMapped,
                VSpaceError::PermissionDenied => VmError::PermissionDenied,
            },
        )
    }
}

/// How a failure of the page tables is told, where bad arguments and missing
/// objects have names of their own.
pub open spec fn guard_error(error: ObjectError, invalid: VmError, missing: VmError) -> ProcessVmError {
    match error {
        ObjectError::InvalidArgument => ProcessVmError::Underlying(invalid),
        ObjectError::ObjectNotFound => ProcessVmError::Underlying(missing),
        other => ProcessVmError::Object(other),
    }
}

pub fn process_vm_guard_error(error: ObjectError, invalid: VmError, missing: VmError) -> (told:
    ProcessVmError)
    ensures
        told == guard_error(error, invalid, missing),
{
    match error {
        ObjectError::InvalidArgument => ObjectOrUnderlyingError::Underlying(invalid),
        ObjectError::ObjectNotFound => ObjectOrUnderlyingError::Underlying(missing),
        other => ObjectOrUnderlyingError::Object(other),
    }
}

/// What an operation behind a handle came to: the handle may refuse, and so may
/// the memory object.
pub fn flatten<T>(result: Result<Result<T, ProcessVmError>, ObjectError>) -> (flat: Result<
    T,
    ProcessVmError,
>)
    ensures
        flat == (match result {
            Ok(Ok(value)) => Ok::<T, ProcessVmError>(value),
            Ok(Err(error)) => Err::<T, ProcessVmError>(error),
            Err(error) => Err::<T, ProcessVmError>(ProcessVmError::Object(error)),
        }),
{
    match result {
        Ok(Ok(value)) => Ok(value),
        Ok(Err(error)) => Err(error),
        Err(error) => Err(ObjectOrUnderlyingError::Object(error)),
    }
}

/// What a part of the address space is for.
#[derive(Debug, Clone, Copy, PartialEq, Eq, Structural)]
pub enum RegionPurpose {
    General,
    User,
    KernelText,
    KernelData,
    KernelHeap,
    KernelStack,
    PageTable,
    DeviceMmio,
}

/// What a page of a memory object is for.
#[derive(Debug, Clone, Copy, PartialEq, Eq, Structural)]
pub enum VmoPagePurpose {
    Anonymous,
    KernelMeta,
    Heap,
    Stack,
    PageTable,
    Dma,
}

impl RegionPurpose {
    pub open spec fn page_purpose(self) -> VmoPagePurpose {
        match self {
            RegionPurpose::General | RegionPurpose::User => VmoPagePurpose::Anonymous,
            RegionPurpose::KernelText | RegionPurpose::KernelData => VmoPagePurpose::KernelMeta,
            RegionPurpose::KernelHeap => VmoPagePurpose::Heap,
            RegionPurpose::KernelStack => VmoPagePurpose::Stack,
            RegionPurpose::PageTable => VmoPagePurpose::PageTable,
            RegionPurpose::DeviceMmio => VmoPagePurpose::Dma,
        }
    }

    /// The purpose of the pages that back the region.
    pub fn vmo_page_purpose(self) -> (purpose: VmoPagePurpose)
        ensures
            purpose == self.page_purpose(),
    {
        match self {
            RegionPurpose::General | RegionPurpose::User => VmoPagePurpose::Anonymous,
            RegionPurpose::KernelText | RegionPurpose::KernelData => VmoPagePurpose::KernelMeta,
            RegionPurpose::KernelHeap => VmoPagePurpose::Heap,
            RegionPurpose::KernelStack => VmoPagePurpose::Stack,
            RegionPurpose::PageTable => VmoPagePurpose::PageTable,
            RegionPurpose::DeviceMmio => VmoPagePurpose::Dma,
        }
    }
}

/// First address of the page that holds `addr`.
pub fn page_base(addr: usize) -> (base: usize)
    ensures
        base == addr - addr % PAGE_SIZE,
{
    assert(addr / PAGE_SIZE * PAGE_SIZE == addr - addr % PAGE_SIZE) by (nonlinear_arith);
    addr / PAGE_SIZE * PAGE_SIZE
}

/// Number of whole pages in a range.
pub open spec fn whole_pages(range: VmRange) -> nat {
    if range.first() <= range.limit() {
        ((range.limit() - range.first()) / 0x1000) as nat
    } else {
        0
    }
}

pub fn base_page_count(range: VmRange) -> (count: usize)
    requires
        range.first() <= range.limit(),
    ensures
        count == whole_pages(range),
{
    range.len() / PAGE_SIZE
}

/// The pages of a range, lowest first.
pub open spec fn range_pages(range: VmRange) -> Seq<usize> {
    Seq::new(whole_pages(range), |i: int| (range.first() + i * 0x1000) as usize)
}

/// Entry of an address region.
pub enum VmarEntry {
    Guard(VmRange),
    Mapping(VmRange),
    Region { range: VmRange, children: Vec<VmarEntry> },
}

impl VmarEntry {
    /// Whether every range in the entry starts before it ends.
    pub open spec fn ordered(&self) -> bool
        decreases self,
    {
        match self {
            VmarEntry::Guard(_) => true,
            VmarEntry::Mapping(range) => range.first() <= range.limit(),
            VmarEntry::Region { children, .. } => forall|i: int|
                0 <= i < children@.len() ==> (#[trigger] children@[i]).ordered(),
        }
    }

    /// The mapped pages of the entry, in order.
    pub open spec fn pages(&self) -> Seq<usize>
        decreases self, 0nat,
    {
        match self {
            VmarEntry::Guard(_) => Seq::empty(),
            VmarEntry::Mapping(range) => range_pages(*range),
            VmarEntry::Region { children, .. } => Self::pages_of(children@, children@.len()),
        }
    }

    /// The mapped pages of the first entries, in order.
    pub open spec fn pages_of(entries: Seq<VmarEntry>, count: nat) -> Seq<usize>
        decreases entries, count,
    {
        if count == 0 || count > entries.len() {
            Seq::empty()
        } else {
            Self::pages_of(entries, (count - 1) as nat) + entries[count - 1].pages()
        }
    }
}

/// Adds the pages of a range to a list.
fn push_range_pages(range: VmRange, pages: &mut Vec<usize>)
    requires
        range.first() <= range.limit(),
    ensures
        final(pages)@ == old(pages)@ + range_pages(range),
{
    let count: usize = base_page_count(range);
    let mut i: usize = 0;
    let ghost all = range_pages(range);
    assert(old(pages)@ + all.take(0) =~= old(pages)@);
    while i < count
        invariant
            i <= count,
            count == whole_pages(range),
            range.first() <= range.limit(),
            all == range_pages(range),
            pages@ == old(pages)@ + all.take(i as int),
        decreases count - i,
    {
        assert(range.first() + i * 0x1000 < range.limit());
        pages.push(range.start() + i * PAGE_SIZE);
        assert(all.take(i + 1) =~= all.take(i as int).push(all[i as int]));
        assert(pages@ =~= old(pages)@ + all.take(i + 1));
        i = i + 1;
    }
    assert(all.take(count as int) =~= all);
}

/// Lists the mapped pages of an entry: guards have none, and a region has those
/// of its entries in turn.
pub fn mapped_pages(entry: &VmarEntry, pages: &mut Vec<usize>)
    requires
        entry.ordered(),
    ensures
        final(pages)@ == old(pages)@ + entry.pages(),
    decreases entry,
{
    match entry {
        VmarEntry::Guard(_) => {
            assert(pages@ + entry.pages() =~= pages@);
        },
        VmarEntry::Mapping(range) => {
            push_range_pages(*range, pages);
        },
        VmarEntry::Region { range: _, children } => {
            let mut i: usize = 0;
            assert(old(pages)@ + VmarEntry::pages_of(children@, 0) =~= old(pages)@);
            while i < children.len()
                invariant
                    i <= children@.len(),
                    forall|j: int| 0 <= j < children@.len() ==> (#[trigger] children@[j]).ordered(),
                    pages@ == old(pages)@ + VmarEntry::pages_of(children@, i as nat),
                    decreases_to!(entry => children@),
                decreases children@.len() - i,
            {
                mapped_pages(&children[i], pages);
                assert(pages@ =~= old(pages)@ + VmarEntry::pages_of(children@, (i + 1) as nat));
                i = i + 1;
            }
        },
    }
}

/// Walk over pages, one page table change each. The first failure ends it.
#[derive(Debug)]
pub struct PageWalk {
    pub pages: Vec<usize>,
    pub done: usize,
    /// Whether a page that is not there is no failure.
    pub tolerate_missing: bool,
    pub failure: Option<ObjectError>,
}

/// The first failure among results that is not tolerated.
pub open spec fn first_failure(
    results: Seq<Result<(), ObjectError>>,
    tolerate_missing: bool,
) -> Option<ObjectError>
    decreases results.len(),
{
    if results.len() == 0 {
        None
    } else {
        match first_failure(results.drop_last(), tolerate_missing) {
            Some(error) => Some(error),
            None => match results.last() {
                Ok(_) => None,
                Err(error) => if tolerate_missing && error is ObjectNotFound {
                    None
                } else {
                    Some(error)
                },
            },
        }
    }
}

impl PageWalk {
    pub open spec fn wf(&self) -> bool {
        self.done <= self.pages@.len()
    }

    /// Whether the walk stands where these results take it.
    pub open spec fn stands_after(&self, results: Seq<Result<(), ObjectError>>) -> bool {
        &&& self.done == results.len()
        &&& self.failure == first_failure(results, self.tolerate_missing)
    }

    /// A walk that maps the pages of a mapping. Pages of an object with a pager
    /// may be missing: they come with a fault.
    pub fn over_mapping(range: VmRange, pager_backed: bool) -> (walk: Self)
        requires
            range.first() <= range.limit(),
        ensures
            walk.wf(),
            walk.pages@ == range_pages(range),
            walk.tolerate_missing == pager_backed,
            walk.stands_after(Seq::empty()),
    {
        let mut pages: Vec<usize> = Vec::new();
        push_range_pages(range, &mut pages);
        assert(Seq::<usize>::empty() + range_pages(range) =~= range_pages(range));
        PageWalk { pages, done: 0, tolerate_missing: pager_backed, failure: None }
    }

    /// A walk that changes the access flags of the pages of a mapping. Every one
    /// of them must be there, also where a pager would bring it.
    pub fn over_protection(range: VmRange) -> (walk: Self)
        requires
            range.first() <= range.limit(),
        ensures
            walk.wf(),
            walk.pages@ == range_pages(range),
            !walk.tolerate_missing,
            walk.stands_after(Seq::empty()),
    {
        Self::over_mapping(range, false)
    }

    /// A walk that unmaps the pages of an entry; those that are not mapped are
    /// passed over.
    pub fn over_entry(entry: &VmarEntry) -> (walk: Self)
        requires
            entry.ordered(),
        ensures
            walk.wf(),
            walk.pages@ == entry.pages(),
            walk.tolerate_missing,
            walk.stands_after(Seq::empty()),
    {
        let mut pages: Vec<usize> = Vec::new();
        mapped_pages(entry, &mut pages);
        assert(Seq::<usize>::empty() + entry.pages() =~= entry.pages());
        PageWalk { pages, done: 0, tolerate_missing: true, failure: None }
    }

    /// The page whose turn it is.
    pub fn next_page(&self) -> (page: Option<usize>)
        requires
            self.wf(),
        ensures
            page == (if self.failure is None && self.done < self.pages@.len() {
                Some(self.pages@[self.done as int])
            } else {
                None
            }),
    {
        if self.failure.is_some() || self.done >= self.pages.len() {
            None
        } else {
            Some(self.pages[self.done])
        }
    }

    /// Takes note of what the change of the current page came to.
    pub fn record(&mut self, result: Result<(), ObjectError>)
        requires
            old(self).wf(),
            old(self).failure is None,
            old(self).done < old(self).pages@.len(),
        ensures
            final(self).wf(),
            final(self).pages == old(self).pages,
            final(self).tolerate_missing == old(self).tolerate_missing,
            final(self).done == old(self).done + 1,
            final(self).failure == (match result {
                Ok(_) => None,
                Err(error) => if old(self).tolerate_missing && error is ObjectNotFound {
                    None
                } else {
                    Some(error)
                },
            }),
    {
        let total: usize = self.pages.len();
        assert(self.done < total);
        self.done = self.done + 1;
        match result {
            Ok(()) => {},
            Err(ObjectError::ObjectNotFound) => {
                if !self.tolerate_missing {
                    self.failure = Some(ObjectError::ObjectNotFound);
                }
            },
            Err(error) => {
                self.failure = Some(error);
            },
        }
    }

    /// What the walk came to.
    pub fn finish(&self) -> (result: Result<(), ObjectError>)
        ensures
            result == (match self.failure {
                Some(error) => Err::<(), ObjectError>(error),
                None => Ok::<(), ObjectError>(()),
            }),
    {
        match self.failure {
            Some(error) => Err(error),
            None => Ok(()),
        }
    }
}

/// Recording a result takes the walk one page further, whatever came before.
pub proof fn law_walk_goes_page_by_page(
    before: PageWalk,
    after: PageWalk,
    results: Seq<Result<(), ObjectError>>,
    result: Result<(), ObjectError>,
)
    requires
        before.stands_after(results),
        before.failure is None,
        after.tolerate_missing == before.tolerate_missing,
        after.done == before.done + 1,
        after.failure == (match result {
            Ok(_) => None,
            Err(error) => if before.tolerate_missing && error is ObjectNotFound {
                None
            } else {
                Some(error)
            },
        }),
    ensures
        after.stands_after(results.push(result)),
{
    assert(results.push(result).drop_last() =~= results);
}

/// The pages of a range are whole pages of it, one after the other.
pub proof fn law_pages_tile_range(range: VmRange, i: int, j: int)
    requires
        range.first() <= range.limit(),
        0 <= i < range_pages(range).len(),
        0 <= j < range_pages(range).len(),
    ensures
        range.first() <= range_pages(range)[i],
        range_pages(range)[i] + PAGE_SIZE <= range.limit(),
        i < j ==> range_pages(range)[i] + PAGE_SIZE <= range_pages(range)[j],
        range.limit() - range.first() - range_pages(range).len() * PAGE_SIZE < PAGE_SIZE,
{
    let len = range.limit() - range.first();
    assert(len / 0x1000 * 0x1000 <= len);
    assert((i + 1) * 0x1000 <= len / 0x1000 * 0x1000);
    assert((j + 1) * 0x1000 <= len / 0x1000 * 0x1000);
}

/// How a page of a memory object gets its frame.
#[derive(Debug, Clone, Copy, PartialEq, Eq, Structural)]
pub enum BackingPlan {
    /// It has one.
    Resident,
    /// It gets none here.
    Refuse(ObjectError),
    /// A fresh one is allocated for it.
    Allocate,
}

/// State of a memory object that decides on the backing of a page.
#[derive(Debug, Clone, Copy, PartialEq, Eq, Structural)]
pub struct PageState {
    pub resident: bool,
    pub pager_backed: bool,
    /// Whether the object is a child of another one.
    pub child: bool,
    /// Whether its backing is made of single pages.
    pub paged: bool,
}

/// Only an object of its own with single pages gets frames on demand.
pub fn ensure_mapping_page_backed(state: PageState) -> (plan: BackingPlan)
    ensures
        plan == (if state.resident {
            BackingPlan::Resident
        } else if state.pager_backed || state.child || !state.paged {
            BackingPlan::Refuse(ObjectError::ObjectNotFound)
        } else {
            BackingPlan::Allocate
        }),
{
    if state.resident {
        return BackingPlan::Resident;
    }
    if state.pager_backed {
        return BackingPlan::Refuse(ObjectError::ObjectNotFound);
    }
    if state.child {
        return BackingPlan::Refuse(ObjectError::ObjectNotFound);
    }
    if !state.paged {
        return BackingPlan::Refuse(ObjectError::ObjectNotFound);
    }
    BackingPlan::Allocate
}

/// Step of giving a page a frame.
#[derive(Debug, Clone, Copy, PartialEq)]
pub enum FrameStep {
    /// Let the object keep the frame at this address.
    Keep(usize),
    /// Ask the object where the page is.
    LookUp,
    Done(Result<usize, ObjectError>),
}

impl FrameStep {
    /// Begins with the frame that was allocated. Without one, nothing is handed
    /// to the object.
    pub fn after_alloc(frame: Option<usize>) -> (step: Self)
        ensures
            step == (match frame {
                Some(phys) => FrameStep::Keep(phys),
                None => FrameStep::Done(Err(ObjectError::InvalidArgument)),
            }),
    {
        match frame {
            Some(phys) => FrameStep::Keep(phys),
            None => FrameStep::Done(Err(ObjectError::InvalidArgument)),
        }
    }

    /// Goes on after the object has kept the frame, or not.
    pub fn after_keep(self, kept: bool) -> (step: Self)
        ensures
            step == (match self {
                FrameStep::Keep(_) => if kept {
                    FrameStep::LookUp
                } else {
                    FrameStep::Done(Err(ObjectError::InvalidArgument))
                },
                step => step,
            }),
    {
        match self {
            FrameStep::Keep(_) => if kept {
                FrameStep::LookUp
            } else {
                FrameStep::Done(Err(ObjectError::InvalidArgument))
            },
            step => step,
        }
    }

    /// Ends with where the object has the page.
    pub fn after_look_up(self, resident: Option<usize>) -> (step: Self)
        ensures
            step == (match self {
                FrameStep::LookUp => FrameStep::Done(
                    match resident {
                        Some(phys) => Ok::<usize, ObjectError>(phys),
                        None => Err::<usize, ObjectError>(ObjectError::ObjectNotFound),
                    },
                ),
                step => step,
            }),
    {
        match self {
            FrameStep::LookUp => match resident {
                Some(phys) => FrameStep::Done(Ok(phys)),
                None => FrameStep::Done(Err(ObjectError::ObjectNotFound)),
            },
            step => step,
        }
    }
}

/// What to do with the page table entry of a page.
#[derive(Debug, Clone, Copy, PartialEq, Eq, Structural)]
pub enum EntryPlan {
    /// There is one for a page of this size: it is rewritten.
    Rewrite,
    /// There is none: the page is mapped.
    MapPage,
    Refuse(ObjectError),
}

/// Decides on the page table entry that was found. `Ok` tells whether it is
/// one for a page of the smallest size.
pub fn install_mapping_page_in_page_table(found: Result<bool, PagingError>) -> (plan: EntryPlan)
    ensures
        plan == (match found {
            Ok(smallest) => if smallest {
                EntryPlan::Rewrite
            } else {
                EntryPlan::Refuse(ObjectError::InvalidArgument)
            },
            Err(PagingError::NotMapped) => EntryPlan::MapPage,
            Err(_) => EntryPlan::Refuse(ObjectError::InvalidArgument),
        }),
{
    match found {
        Ok(smallest) => if smallest {
            EntryPlan::Rewrite
        } else {
            EntryPlan::Refuse(ObjectError::InvalidArgument)
        },
        Err(PagingError::NotMapped) => EntryPlan::MapPage,
        Err(error) => EntryPlan::Refuse(translate_paging_error(error)),
    }
}

/// Step of a change to an address region that must also reach the page tables.
#[derive(Debug)]
pub enum ChangeStep {
    /// Get the memory object.
    Share,
    /// Change the address region.
    Apply,
    /// Change the page tables.
    Pages,
    /// Take the change of the address region back.
    Undo(ProcessVmError),
    Done(Result<(), ProcessVmError>),
}

impl ChangeStep {
    /// First step of a mapping.
    pub fn vmar_map() -> (step: Self)
        ensures
            step == ChangeStep::Share,
    {
        ChangeStep::Share
    }

    /// First step of a change of access rights.
    pub fn vmar_protect() -> (step: Self)
        ensures
            step == ChangeStep::Apply,
    {
        ChangeStep::Apply
    }

    /// What the step leads to. A failure before the page tables ends the change;
    /// a failure there is undone first.
    pub open spec fn after(self, result: Result<(), ProcessVmError>) -> ChangeStep {
        match (self, result) {
            (ChangeStep::Share, Ok(_)) => ChangeStep::Apply,
            (ChangeStep::Apply, Ok(_)) => ChangeStep::Pages,
            (ChangeStep::Pages, Ok(_)) => ChangeStep::Done(Ok(())),
            (ChangeStep::Share, Err(error)) => ChangeStep::Done(Err(error)),
            (ChangeStep::Apply, Err(error)) => ChangeStep::Done(Err(error)),
            (ChangeStep::Pages, Err(error)) => ChangeStep::Undo(error),
            (ChangeStep::Undo(error), _) => ChangeStep::Done(Err(error)),
            (ChangeStep::Done(outcome), _) => ChangeStep::Done(outcome),
        }
    }

    /// Goes on after the step was taken.
    pub fn next(self, result: Result<(), ProcessVmError>) -> (step: Self)
        ensures
            step == self.after(result),
    {
        match self {
            ChangeStep::Share => match result {
                Ok(()) => ChangeStep::Apply,
                Err(error) => ChangeStep::Done(Err(error)),
            },
            ChangeStep::Apply => match result {
                Ok(()) => ChangeStep::Pages,
                Err(error) => ChangeStep::Done(Err(error)),
            },
            ChangeStep::Pages => match result {
                Ok(()) => ChangeStep::Done(Ok(())),
                Err(error) => ChangeStep::Undo(error),
            },
            ChangeStep::Undo(error) => ChangeStep::Done(Err(error)),
            ChangeStep::Done(outcome) => ChangeStep::Done(outcome),
        }
    }
}

/// How a failed walk over the page tables is told.
pub fn page_failure(result: Result<(), ObjectError>) -> (told: Result<(), ProcessVmError>)
    ensures
        told == (match result {
            Ok(_) => Ok::<(), ProcessVmError>(()),
            Err(error) => Err::<(), ProcessVmError>(
                guard_error(error, VmError::InvalidArgument, VmError::NotMapped),
            ),
        }),
{
    match result {
        Ok(()) => Ok(()),
        Err(error) => Err(
            process_vm_guard_error(error, VmError::InvalidArgument, VmError::NotMapped),
        ),
    }
}

/// A change whose page tables fail is undone before it is reported, and what is
/// reported is the first failure.
pub proof fn law_failed_change_is_undone(error: ProcessVmError, undo: Result<(), ProcessVmError>)
    ensures
        ChangeStep::Share.after(Ok(())).after(Ok(())).after(Err(error)) == ChangeStep::Undo(error),
        ChangeStep::Share.after(Ok(())).after(Ok(())).after(Err(error)).after(undo)
            == ChangeStep::Done(Err(error)),
        ChangeStep::Share.after(Ok(())).after(Ok(())).after(Ok(())) == ChangeStep::Done(Ok(())),
{
}

/// How a mapping would answer a fault.
#[derive(Debug, Clone, Copy, PartialEq, Eq, Structural)]
pub enum VmFaultResolution {
    ProtectionDenied,
    Unresolved,
    PrivateCow,
    PagerBacked,
    InvalidRange,
    RetryAfterMap,
}

/// What lies at an address.
#[derive(Debug, Clone, Copy, PartialEq, Eq, Structural)]
pub enum VmPointerRegion {
    Unmapped,
    GuardPage,
    Static,
    Reserved,
    /// A mapping, and how it answers the fault.
    Mapping(VmFaultResolution),
}

/// Why a fault happened.
#[derive(Debug, Clone, Copy, PartialEq, Eq, Structural)]
pub enum ProcessPageFaultKind {
    /// No mapping covers the address.
    NotMapped,
    /// The address lies in a guard page.
    GuardPage,
    /// The address lies in a fixed segment outside managed mappings.
    StaticLayout,
    /// The address lies in a reserved range without an object.
    ReservedRange,
    /// The mapping cannot translate the address.
    InvalidMappingRange,
    /// The mapping or its object forbids the access.
    ProtectionDenied,
    /// The page is there and only the page table lacks it.
    RetryAfterMap,
    /// There is no page and no way to get one.
    UnresolvedMapping,
    /// The page must be copied first.
    PrivateCow,
    /// A pager must bring the page.
    PagerBacked,
}

impl VmPointerRegion {
    pub open spec fn kind(self) -> ProcessPageFaultKind {
        match self {
            VmPointerRegion::Unmapped => ProcessPageFaultKind::NotMapped,
            VmPointerRegion::GuardPage => ProcessPageFaultKind::GuardPage,
            VmPointerRegion::Static => ProcessPageFaultKind::StaticLayout,
            VmPointerRegion::Reserved => ProcessPageFaultKind::ReservedRange,
            VmPointerRegion::Mapping(resolution) => match resolution {
                VmFaultResolution::ProtectionDenied => ProcessPageFaultKind::ProtectionDenied,
                VmFaultResolution::Unresolved => ProcessPageFaultKind::UnresolvedMapping,
                VmFaultResolution::PrivateCow => ProcessPageFaultKind::PrivateCow,
                VmFaultResolution::PagerBacked => ProcessPageFaultKind::PagerBacked,
                VmFaultResolution::InvalidRange => ProcessPageFaultKind::InvalidMappingRange,
                VmFaultResolution::RetryAfterMap => ProcessPageFaultKind::RetryAfterMap,
            },
        }
    }

    /// Why a fault in the region happened.
    pub fn fault_kind(self) -> (kind: ProcessPageFaultKind)
        ensures
            kind == self.kind(),
    {
        match self {
            VmPointerRegion::Unmapped => ProcessPageFaultKind::NotMapped,
            VmPointerRegion::GuardPage => ProcessPageFaultKind::GuardPage,
            VmPointerRegion::Static => ProcessPageFaultKind::StaticLayout,
            VmPointerRegion::Reserved => ProcessPageFaultKind::ReservedRange,
            VmPointerRegion::Mapping(resolution) => match resolution {
                VmFaultResolution::ProtectionDenied => ProcessPageFaultKind::ProtectionDenied,
                VmFaultResolution::Unresolved => ProcessPageFaultKind::UnresolvedMapping,
                VmFaultResolution::PrivateCow => ProcessPageFaultKind::PrivateCow,
                VmFaultResolution::PagerBacked => ProcessPageFaultKind::PagerBacked,
                VmFaultResolution::InvalidRange => ProcessPageFaultKind::InvalidMappingRange,
                VmFaultResolution::RetryAfterMap => ProcessPageFaultKind::RetryAfterMap,
            },
        }
    }
}

/// Record of a page fault.
#[derive(Debug, Clone, Copy, PartialEq, Eq, Structural)]
pub struct ProcessPageFault {
    pub addr: usize,
    pub write: bool,
    pub region: VmPointerRegion,
    pub kind: ProcessPageFaultKind,
}

/// What a page fault leads to.
#[derive(Debug, Clone, Copy, PartialEq, Eq, Structural)]
pub enum ProcessUserFaultResolution {
    /// User code goes on at once.
    Resume,
    /// User code waits until a pager has served the fault.
    Block(ProcessPageFault),
    /// User code does not go on.
    Terminate(ProcessPageFault),
}

/// What is to be tried for a page fault.
#[derive(Debug, Clone, Copy, PartialEq, Eq, Structural)]
pub enum FaultPlan {
    /// Put the page into the page table.
    InstallPage,
    /// Copy the page and put the copy into the page table.
    CopyPage,
    Done(ProcessUserFaultResolution),
}

/// The record of a fault.
pub open spec fn fault_at(addr: usize, write: bool, region: VmPointerRegion) -> ProcessPageFault {
    ProcessPageFault { addr, write, region, kind: region.kind() }
}

/// A page that only the page table lacks is installed; a private page that is
/// written is copied; a page with a pager is waited for; nothing else can be
/// helped.
pub open spec fn fault_plan(addr: usize, write: bool, region: VmPointerRegion) -> FaultPlan {
    match region {
        VmPointerRegion::Mapping(VmFaultResolution::RetryAfterMap) => FaultPlan::InstallPage,
        VmPointerRegion::Mapping(VmFaultResolution::PagerBacked) => FaultPlan::Done(
            ProcessUserFaultResolution::Block(fault_at(addr, write, region)),
        ),
        VmPointerRegion::Mapping(VmFaultResolution::PrivateCow) if write => FaultPlan::CopyPage,
        _ => FaultPlan::Done(ProcessUserFaultResolution::Terminate(fault_at(addr, write, region))),
    }
}

/// Decides on a page fault of user code.
pub fn resolve_user_fault(addr: usize, write: bool, region: VmPointerRegion) -> (plan: FaultPlan)
    ensures
        plan == fault_plan(addr, write, region),
{
    let fault = ProcessPageFault { addr, write, region, kind: region.fault_kind() };
    match region {
        VmPointerRegion::Mapping(VmFaultResolution::RetryAfterMap) => FaultPlan::InstallPage,
        VmPointerRegion::Mapping(VmFaultResolution::PagerBacked) => FaultPlan::Done(
            ProcessUserFaultResolution::Block(fault),
        ),
        VmPointerRegion::Mapping(VmFaultResolution::PrivateCow) => if write {
            FaultPlan::CopyPage
        } else {
            FaultPlan::Done(ProcessUserFaultResolution::Terminate(fault))
        },
        _ => FaultPlan::Done(ProcessUserFaultResolution::Terminate(fault)),
    }
}

/// After the page was to be installed.
pub fn after_install(installed: Result<(), ObjectError>) -> (result: Result<
    ProcessUserFaultResolution,
    ProcessVmError,
>)
    ensures
        result == (match installed {
            Ok(_) => Ok::<ProcessUserFaultResolution, ProcessVmError>(
                ProcessUserFaultResolution::Resume,
            ),
            Err(error) => Err::<ProcessUserFaultResolution, ProcessVmError>(
                ProcessVmError::Object(error),
            ),
        }),
{
    match installed {
        Ok(()) => Ok(ProcessUserFaultResolution::Resume),
        Err(error) => Err(ObjectOrUnderlyingError::Object(error)),
    }
}

/// Step of giving a task its own copy of a page. The page is translated, copied
/// and installed in this order, and the first failure ends it.
#[derive(Debug, Clone, Copy, PartialEq, Eq, Structural)]
pub enum CopyStep {
    /// Copy the page at this offset of the memory object.
    Copy(usize),
    Install,
    Done(ProcessUserFaultResolution),
}

/// What a page that cannot be copied leads to.
pub open spec fn uncopied(addr: usize) -> ProcessUserFaultResolution {
    ProcessUserFaultResolution::Terminate(
        fault_at(addr, true, VmPointerRegion::Mapping(VmFaultResolution::PrivateCow)),
    )
}

fn give_up_copy(addr: usize) -> (resolution: ProcessUserFaultResolution)
    ensures
        resolution == uncopied(addr),
{
    ProcessUserFaultResolution::Terminate(
        ProcessPageFault {
            addr,
            write: true,
            region: VmPointerRegion::Mapping(VmFaultResolution::PrivateCow),
            kind: ProcessPageFaultKind::PrivateCow,
        },
    )
}

impl CopyStep {
    /// First step, after the address was translated.
    pub fn service_private_cow_fault(addr: usize, offset: Option<usize>) -> (step: Self)
        ensures
            step == (match offset {
                Some(offset) => CopyStep::Copy(offset),
                None => CopyStep::Done(uncopied(addr)),
            }),
    {
        match offset {
            Some(offset) => CopyStep::Copy(offset),
            None => CopyStep::Done(give_up_copy(addr)),
        }
    }

    /// What a step leads to.
    pub open spec fn after(self, addr: usize, done: bool) -> CopyStep {
        match self {
            CopyStep::Copy(_) => if done {
                CopyStep::Install
            } else {
                CopyStep::Done(uncopied(addr))
            },
            CopyStep::Install => CopyStep::Done(
                if done {
                    ProcessUserFaultResolution::Resume
                } else {
                    uncopied(addr)
                },
            ),
            CopyStep::Done(resolution) => CopyStep::Done(resolution),
        }
    }

    /// Goes on after the page was to be copied, or installed.
    pub fn after_copy(self, addr: usize, done: bool) -> (step: Self)
        ensures
            step == self.after(addr, done),
    {
        match self {
            CopyStep::Copy(_) => if done {
                CopyStep::Install
            } else {
                CopyStep::Done(give_up_copy(addr))
            },
            CopyStep::Install => if done {
                CopyStep::Done(ProcessUserFaultResolution::Resume)
            } else {
                CopyStep::Done(give_up_copy(addr))
            },
            CopyStep::Done(resolution) => CopyStep::Done(resolution),
        }
    }
}

/// Step of having a pager bring the page of a fault.
#[derive(Debug, Clone, Copy, PartialEq, Eq, Structural)]
pub enum PagerStep {
    Ask,
    /// Install the page that the pager brought.
    Install,
    Done(FaultAttempt),
}

impl PagerStep {
    /// First step: without a mapping no pager is asked.
    pub fn service_pager_fault(fault: ProcessPageFault) -> (step: Self)
        ensures
            step == (if fault.region is Mapping {
                PagerStep::Ask
            } else {
                PagerStep::Done(FaultAttempt::Paged(false))
            }),
    {
        match fault.region {
            VmPointerRegion::Mapping(_) => PagerStep::Ask,
            _ => PagerStep::Done(FaultAttempt::Paged(false)),
        }
    }

    /// What a step leads to: a page that the pager did not bring is not installed.
    pub open spec fn after(self, done: bool) -> PagerStep {
        match self {
            PagerStep::Ask => if done {
                PagerStep::Install
            } else {
                PagerStep::Done(FaultAttempt::Paged(false))
            },
            PagerStep::Install => PagerStep::Done(FaultAttempt::Paged(done)),
            PagerStep::Done(attempt) => PagerStep::Done(attempt),
        }
    }

    /// Goes on after the pager was asked, or the page installed.
    pub fn advance(self, done: bool) -> (step: Self)
        ensures
            step == self.after(done),
    {
        match self {
            PagerStep::Ask => if done {
                PagerStep::Install
            } else {
                PagerStep::Done(FaultAttempt::Paged(false))
            },
            PagerStep::Install => PagerStep::Done(FaultAttempt::Paged(done)),
            PagerStep::Done(attempt) => PagerStep::Done(attempt),
        }
    }
}

/// User code never goes on behind a fault that its mapping forbids, nor behind
/// one outside every mapping.
pub proof fn law_forbidden_access_terminates(addr: usize, write: bool, region: VmPointerRegion)
    requires
        !(region is Mapping) || region == VmPointerRegion::Mapping(
            VmFaultResolution::ProtectionDenied,
        ),
    ensures
        fault_plan(addr, write, region) == FaultPlan::Done(
            ProcessUserFaultResolution::Terminate(fault_at(addr, write, region)),
        ),
{
}

/// A private page is copied for a write alone.
pub proof fn law_only_writes_copy(addr: usize, write: bool, region: VmPointerRegion)
    requires
        fault_plan(addr, write, region) is CopyPage,
    ensures
        write,
        region == VmPointerRegion::Mapping(VmFaultResolution::PrivateCow),
{
}

} // verus!
