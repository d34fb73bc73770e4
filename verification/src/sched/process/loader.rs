//! Loading of user images and the first user stack.

use vstd::prelude::*;

use super::lifecycle::{Process, ProcessLoadInfo};
use super::manager::{live_handle, ProcessVmError};
use super::objects::{read_rights, VmAbi};
use super::vm::PAGE_SIZE;
use crate::memory::range::VmRange;
use crate::object::{slots_in_turn, table_after, Capability, Handle, ObjectError};
use crate::sched::user::VmFlags;

verus! {

/// Pages of the first user stack.
pub const BOOTSTRAP_USER_STACK_PAGES: usize = 16;

/// What is wrong with an image or with the stack that is built for it.
#[derive(Debug, Clone, Copy, PartialEq, Eq, Structural)]
pub enum ExecutableDefect {
    Empty,
    Unreadable,
    EntryOverflow,
    BaseOverflow,
    EndOverflow,
    DoesNotFit,
    AlignmentOverflow,
    SegmentAddressOverflow,
    SegmentUnaligned,
    SegmentRangeOverflow,
    SegmentMapping,
    SegmentContents,
    StackTooSmall,
    ArgumentPointerOverflow,
    ArgumentsDoNotFit,
    StackContents,
}

/// Errors met while an image is loaded.
#[derive(Debug)]
pub enum BootstrapLoadError {
    Object(ObjectError),
    Vm(ProcessVmError),
    /// The image cannot be parsed.
    Image,
    /// The image cannot be linked.
    Link,
    InvalidExecutable(ExecutableDefect),
}

/// What the creator of a process is told of a failed load.
#[derive(Debug, Clone, Copy, PartialEq, Eq, Structural)]
pub enum ProcessLoadError {
    InvalidState,
    InvalidImage,
    MappingFailed,
}

impl BootstrapLoadError {
    pub open spec fn told(self) -> ProcessLoadError {
        match self {
            BootstrapLoadError::Object(_) | BootstrapLoadError::Vm(_) => {
                ProcessLoadError::MappingFailed
            },
            _ => ProcessLoadError::InvalidImage,
        }
    }

    /// A bad image, or a failure to map a good one.
    pub fn process_load_error(&self) -> (error: ProcessLoadError)
        ensures
            error == self.told(),
    {
        match self {
            BootstrapLoadError::Image
            | BootstrapLoadError::Link
            | BootstrapLoadError::InvalidExecutable(_) => ProcessLoadError::InvalidImage,
            BootstrapLoadError::Object(_) | BootstrapLoadError::Vm(_) => {
                ProcessLoadError::MappingFailed
            },
        }
    }
}

/// Checks the object that holds an image before it is parsed.
pub fn check_image_source(stream_size: usize, readable: bool) -> (result: Result<(), ExecutableDefect>)
    ensures
        result == (if stream_size == 0 {
            Err::<(), ExecutableDefect>(ExecutableDefect::Empty)
        } else if !readable {
            Err::<(), ExecutableDefect>(ExecutableDefect::Unreadable)
        } else {
            Ok::<(), ExecutableDefect>(())
        }),
{
    if stream_size == 0 {
        return Err(ExecutableDefect::Empty);
    }
    if !readable {
        return Err(ExecutableDefect::Unreadable);
    }
    Ok(())
}

/// Why a linker cannot reach an address of the image.
#[derive(Debug, Clone, Copy, PartialEq, Eq, Structural)]
pub enum RebaseError {
    NotMapped,
    NotTranslated,
    NotCopied,
}

/// Step of an access of the linker to the image.
#[derive(Debug, Clone, Copy, PartialEq)]
pub enum RebaseStep {
    /// Copy the bytes at this offset of the memory object.
    Copy(usize),
    Done(Result<usize, RebaseError>),
}

impl RebaseStep {
    /// The linker reaches an address: it must be mapped and be translated into the
    /// memory object. Nothing is copied otherwise. `translated` is the mapping
    /// that was found, and where it has the address.
    pub fn rebase_access(translated: Option<Option<usize>>) -> (step: Self)
        ensures
            step == (match translated {
                None => RebaseStep::Done(Err(RebaseError::NotMapped)),
                Some(None) => RebaseStep::Done(Err(RebaseError::NotTranslated)),
                Some(Some(offset)) => RebaseStep::Copy(offset),
            }),
    {
        match translated {
            None => RebaseStep::Done(Err(RebaseError::NotMapped)),
            Some(None) => RebaseStep::Done(Err(RebaseError::NotTranslated)),
            Some(Some(offset)) => RebaseStep::Copy(offset),
        }
    }

    /// Goes on after the bytes were copied, or not.
    pub fn after_copy(self, copied: bool) -> (step: Self)
        ensures
            step == (match self {
                RebaseStep::Copy(offset) => RebaseStep::Done(
                    if copied {
                        Ok::<usize, RebaseError>(offset)
                    } else {
                        Err::<usize, RebaseError>(RebaseError::NotCopied)
                    },
                ),
                done => done,
            }),
    {
        match self {
            RebaseStep::Copy(offset) => if copied {
                RebaseStep::Done(Ok(offset))
            } else {
                RebaseStep::Done(Err(RebaseError::NotCopied))
            },
            done => done,
        }
    }
}

/// Addresses of an image as it was linked.
#[derive(Debug, Clone, Copy, PartialEq, Eq, Structural)]
pub struct ImageLayout {
    pub image_base: usize,
    pub image_end: usize,
    pub entry_point: usize,
}

/// How far an image is moved up to reach the user image segment.
pub open spec fn slide_of(image_base: usize, user_base: usize) -> int {
    if user_base >= image_base {
        user_base - image_base
    } else {
        0
    }
}

/// The slide of an image, if the moved image ends inside the segment.
pub fn bootstrap_slide(image: ImageLayout, user_base: usize, user_limit: usize) -> (result: Result<
    usize,
    ExecutableDefect,
>)
    ensures
        ({
            let slide = slide_of(image.image_base, user_base);
            result == (if image.image_end + slide > usize::MAX {
                Err::<usize, ExecutableDefect>(ExecutableDefect::EndOverflow)
            } else if image.image_end + slide > user_limit {
                Err::<usize, ExecutableDefect>(ExecutableDefect::DoesNotFit)
            } else {
                Ok::<usize, ExecutableDefect>(slide as usize)
            })
        }),
{
    let slide: usize = user_base.saturating_sub(image.image_base);
    let image_end: usize = match image.image_end.checked_add(slide) {
        None => {
            return Err(ExecutableDefect::EndOverflow);
        },
        Some(image_end) => image_end,
    };
    if image_end > user_limit {
        return Err(ExecutableDefect::DoesNotFit);
    }
    Ok(slide)
}

/// The moved image as its process remembers it.
pub open spec fn moved(image: ImageLayout, slide: usize) -> Result<
    ProcessLoadInfo,
    ExecutableDefect,
> {
    if image.entry_point + slide > usize::MAX {
        Err(ExecutableDefect::EntryOverflow)
    } else if image.image_base + slide > usize::MAX {
        Err(ExecutableDefect::BaseOverflow)
    } else if image.image_end + slide > usize::MAX {
        Err(ExecutableDefect::EndOverflow)
    } else {
        Ok(
            ProcessLoadInfo {
                entry_ip: (image.entry_point + slide) as usize,
                image_base: (image.image_base + slide) as usize,
                image_end: (image.image_end + slide) as usize,
                slide,
            },
        )
    }
}

/// The moved image as its process remembers it.
pub fn load_info(image: ImageLayout, slide: usize) -> (result: Result<
    ProcessLoadInfo,
    ExecutableDefect,
>)
    ensures
        result == moved(image, slide),
{
    let entry_ip: usize = match image.entry_point.checked_add(slide) {
        None => {
            return Err(ExecutableDefect::EntryOverflow);
        },
        Some(entry_ip) => entry_ip,
    };
    let image_base: usize = match image.image_base.checked_add(slide) {
        None => {
            return Err(ExecutableDefect::BaseOverflow);
        },
        Some(image_base) => image_base,
    };
    let image_end: usize = match image.image_end.checked_add(slide) {
        None => {
            return Err(ExecutableDefect::EndOverflow);
        },
        Some(image_end) => image_end,
    };
    Ok(ProcessLoadInfo { entry_ip, image_base, image_end, slide })
}

/// An image that is linked at or below the user segment ends up inside it.
pub proof fn law_loaded_image_is_inside(image: ImageLayout, user_base: usize, user_limit: usize)
    requires
        image.image_base <= user_base,
        image.image_base <= image.image_end,
        image.image_end + slide_of(image.image_base, user_base) <= user_limit,
    ensures
        image.image_base + slide_of(image.image_base, user_base) == user_base,
        user_base <= image.image_end + slide_of(image.image_base, user_base) <= user_limit,
{
}

/// The smallest multiple of the page size that is not below `value`.
pub open spec fn aligned_up(value: int) -> int {
    (value + PAGE_SIZE - 1) / PAGE_SIZE as int * PAGE_SIZE
}

/// Rounds up to whole pages.
pub fn page_align_up(value: usize) -> (result: Result<usize, ExecutableDefect>)
    ensures
        result == (if value + PAGE_SIZE - 1 > usize::MAX {
            Err::<usize, ExecutableDefect>(ExecutableDefect::AlignmentOverflow)
        } else {
            Ok::<usize, ExecutableDefect>(aligned_up(value as int) as usize)
        }),
        result matches Ok(aligned) ==> aligned == aligned_up(value as int) && aligned % PAGE_SIZE
            == 0 && value <= aligned < value + PAGE_SIZE,
{
    match value.checked_add(PAGE_SIZE - 1) {
        None => Err(ExecutableDefect::AlignmentOverflow),
        Some(raised) => {
            let aligned: usize = raised / PAGE_SIZE * PAGE_SIZE;
            Ok(aligned)
        },
    }
}

/// Where a segment of an image goes.
#[derive(Debug, Clone, Copy, PartialEq, Eq, Structural)]
pub struct SegmentPlan {
    pub range: VmRange,
    pub size: usize,
}

/// Where a segment of an image goes: moved by the slide, on whole pages.
pub fn map_bootstrap_segment(vm_addr: usize, vm_size: usize, slide: usize) -> (result: Result<
    SegmentPlan,
    ExecutableDefect,
>)
    ensures
        match result {
            Ok(plan) => {
                &&& plan.range.first() == vm_addr + slide
                &&& plan.range.first() % PAGE_SIZE == 0
                &&& plan.size == aligned_up(vm_size as int)
                &&& plan.size > 0
                &&& plan.range.limit() == plan.range.first() + plan.size
            },
            Err(defect) => if vm_addr + slide > usize::MAX {
                defect is SegmentAddressOverflow
            } else if vm_size + PAGE_SIZE - 1 > usize::MAX {
                defect is AlignmentOverflow
            } else if (vm_addr + slide) % (PAGE_SIZE as int) != 0 || vm_size == 0 {
                defect is SegmentUnaligned
            } else {
                defect is SegmentRangeOverflow && vm_addr + slide + aligned_up(vm_size as int)
                    > usize::MAX
            },
        },
{
    let start: usize = match vm_addr.checked_add(slide) {
        None => {
            return Err(ExecutableDefect::SegmentAddressOverflow);
        },
        Some(start) => start,
    };
    let size: usize = match page_align_up(vm_size) {
        Err(defect) => {
            return Err(defect);
        },
        Ok(size) => size,
    };
    if start % PAGE_SIZE != 0 || size == 0 {
        return Err(ExecutableDefect::SegmentUnaligned);
    }
    let end: usize = match start.checked_add(size) {
        None => {
            return Err(ExecutableDefect::SegmentRangeOverflow);
        },
        Some(end) => end,
    };
    match VmRange::new(start, end) {
        None => Err(ExecutableDefect::SegmentRangeOverflow),
        Some(range) => Ok(SegmentPlan { range, size }),
    }
}

/// Contents of a segment: the bytes of the file, then zeros.
pub fn segment_contents(file_bytes: &Vec<u8>, size: usize) -> (bytes: Vec<u8>)
    requires
        file_bytes@.len() <= size,
    ensures
        bytes@.len() == size,
        bytes@.take(file_bytes@.len() as int) == file_bytes@,
        forall|i: int| file_bytes@.len() <= i < size ==> #[trigger] bytes@[i] == 0,
{
    let mut bytes: Vec<u8> = Vec::new();
    let mut i: usize = 0;
    while i < size
        invariant
            i <= size,
            file_bytes@.len() <= size,
            bytes@.len() == i,
            forall|j: int|
                0 <= j < i ==> #[trigger] bytes@[j] == (if j < file_bytes@.len() {
                    file_bytes@[j]
                } else {
                    0
                }),
        decreases size - i,
    {
        if i < file_bytes.len() {
            bytes.push(file_bytes[i]);
        } else {
            bytes.push(0);
        }
        i = i + 1;
    }
    assert(bytes@.take(file_bytes@.len() as int) =~= file_bytes@);
    bytes
}

/// Why a segment could not be installed.
#[derive(Debug, Clone, Copy, PartialEq, Eq, Structural)]
pub enum SegmentFailure {
    Mapping,
    Pages(ObjectError),
    Contents,
}

impl SegmentFailure {
    /// What the load of the image ends with.
    pub open spec fn ends_with(self) -> BootstrapLoadError {
        match self {
            SegmentFailure::Mapping => BootstrapLoadError::InvalidExecutable(
                ExecutableDefect::SegmentMapping,
            ),
            SegmentFailure::Pages(error) => BootstrapLoadError::Object(error),
            SegmentFailure::Contents => BootstrapLoadError::InvalidExecutable(
                ExecutableDefect::SegmentContents,
            ),
        }
    }

    /// What the load of the image ends with.
    pub fn load_error(self) -> (error: BootstrapLoadError)
        ensures
            error == self.ends_with(),
    {
        match self {
            SegmentFailure::Mapping => BootstrapLoadError::InvalidExecutable(
                ExecutableDefect::SegmentMapping,
            ),
            SegmentFailure::Pages(error) => BootstrapLoadError::Object(error),
            SegmentFailure::Contents => BootstrapLoadError::InvalidExecutable(
                ExecutableDefect::SegmentContents,
            ),
        }
    }
}

/// What is done next to install a segment.
#[derive(Debug, Clone, Copy, PartialEq, Eq)]
pub enum SegmentStep {
    /// Enter the mapping into the region of the image.
    Enter,
    /// Put its pages into the page table.
    Pages,
    /// Write its contents.
    Contents,
    /// Take its pages out of the page table again.
    UnmapPages,
    /// Take the mapping out of the region again.
    Remove(SegmentFailure),
    Done(Result<(), SegmentFailure>),
}

impl SegmentStep {
    /// The step after this one. Steps that undo others go on whatever they come
    /// to.
    pub open spec fn following(self, result: Result<(), ObjectError>) -> SegmentStep {
        match self {
            SegmentStep::Enter => match result {
                Ok(_) => SegmentStep::Pages,
                Err(_) => SegmentStep::Done(Err(SegmentFailure::Mapping)),
            },
            SegmentStep::Pages => match result {
                Ok(_) => SegmentStep::Contents,
                Err(error) => SegmentStep::Remove(SegmentFailure::Pages(error)),
            },
            SegmentStep::Contents => match result {
                Ok(_) => SegmentStep::Done(Ok(())),
                Err(_) => SegmentStep::UnmapPages,
            },
            SegmentStep::UnmapPages => SegmentStep::Remove(SegmentFailure::Contents),
            SegmentStep::Remove(failure) => SegmentStep::Done(Err(failure)),
            SegmentStep::Done(result) => SegmentStep::Done(result),
        }
    }

    /// The step after this one.
    pub fn install_segment(self, result: Result<(), ObjectError>) -> (step: Self)
        ensures
            step == self.following(result),
    {
        match self {
            SegmentStep::Enter => match result {
                Ok(()) => SegmentStep::Pages,
                Err(_) => SegmentStep::Done(Err(SegmentFailure::Mapping)),
            },
            SegmentStep::Pages => match result {
                Ok(()) => SegmentStep::Contents,
                Err(error) => SegmentStep::Remove(SegmentFailure::Pages(error)),
            },
            SegmentStep::Contents => match result {
                Ok(()) => SegmentStep::Done(Ok(())),
                Err(_) => SegmentStep::UnmapPages,
            },
            SegmentStep::UnmapPages => SegmentStep::Remove(SegmentFailure::Contents),
            SegmentStep::Remove(failure) => SegmentStep::Done(Err(failure)),
            SegmentStep::Done(result) => SegmentStep::Done(result),
        }
    }
}

/// A segment that cannot be installed is taken out again, whatever the steps that
/// undo it come to: without its pages the mapping goes, and without its contents
/// first the pages and then the mapping.
pub proof fn law_failed_segment_is_undone(
    error: ObjectError,
    pages: Result<(), ObjectError>,
    mapping: Result<(), ObjectError>,
)
    ensures
        SegmentStep::Pages.following(Err(error)) == SegmentStep::Remove(
            SegmentFailure::Pages(error),
        ),
        SegmentStep::Pages.following(Err(error)).following(mapping) == SegmentStep::Done(
            Err(SegmentFailure::Pages(error)),
        ),
        SegmentStep::Contents.following(Err(error)) == SegmentStep::UnmapPages,
        SegmentStep::UnmapPages.following(pages) == SegmentStep::Remove(SegmentFailure::Contents),
        SegmentStep::UnmapPages.following(pages).following(mapping) == SegmentStep::Done(
            Err(SegmentFailure::Contents),
        ),
{
}

/// How far the load of an image has come.
#[derive(Debug, Clone, Copy, PartialEq, Eq, Structural)]
pub enum LoadStage {
    /// The region for images is looked up.
    Region,
    /// The segment at a position is installed.
    Segment(usize),
    /// The image is linked.
    Link,
    Done,
}

/// The load of an image that was parsed.
#[derive(Debug, Clone, Copy, PartialEq, Eq, Structural)]
pub struct ImageLoad {
    pub image: ImageLayout,
    pub segments: usize,
    pub slide: usize,
    pub stage: LoadStage,
}

impl ImageLoad {
    pub open spec fn wf(self) -> bool {
        self.stage matches LoadStage::Segment(at) ==> at < self.segments
    }

    /// The stage after this one.
    pub open spec fn following(self) -> LoadStage {
        match self.stage {
            LoadStage::Region => if self.segments == 0 {
                LoadStage::Link
            } else {
                LoadStage::Segment(0)
            },
            LoadStage::Segment(at) => if at + 1 < self.segments {
                LoadStage::Segment((at + 1) as usize)
            } else {
                LoadStage::Link
            },
            _ => LoadStage::Done,
        }
    }

    /// Begins with an image, if it can be parsed and fits into the region once it
    /// is moved.
    pub fn load_image_bytes(
        parsed: Result<(ImageLayout, usize), BootstrapLoadError>,
        user_base: usize,
        user_limit: usize,
    ) -> (result: Result<ImageLoad, BootstrapLoadError>)
        ensures
            match parsed {
                Err(error) => result == Err::<ImageLoad, BootstrapLoadError>(error),
                Ok((image, segments)) => {
                    let slide = slide_of(image.image_base, user_base);
                    result == (if image.image_end + slide > usize::MAX {
                        Err::<ImageLoad, BootstrapLoadError>(
                            BootstrapLoadError::InvalidExecutable(ExecutableDefect::EndOverflow),
                        )
                    } else if image.image_end + slide > user_limit {
                        Err::<ImageLoad, BootstrapLoadError>(
                            BootstrapLoadError::InvalidExecutable(ExecutableDefect::DoesNotFit),
                        )
                    } else {
                        Ok::<ImageLoad, BootstrapLoadError>(
                            (ImageLoad {
                                image,
                                segments,
                                slide: slide as usize,
                                stage: LoadStage::Region,
                            }),
                        )
                    })
                },
            },
    {
        let (image, segments) = match parsed {
            Ok(parsed) => parsed,
            Err(error) => {
                return Err(error);
            },
        };
        match bootstrap_slide(image, user_base, user_limit) {
            Ok(slide) => Ok(ImageLoad { image, segments, slide, stage: LoadStage::Region }),
            Err(defect) => Err(BootstrapLoadError::InvalidExecutable(defect)),
        }
    }

    /// Takes note of what the present stage came to. A failure ends the load; the
    /// linked image is returned.
    pub fn advance(&mut self, result: Result<(), BootstrapLoadError>) -> (outcome: Result<
        Option<ProcessLoadInfo>,
        BootstrapLoadError,
    >)
        requires
            old(self).wf(),
            old(self).stage != LoadStage::Done,
        ensures
            final(self).wf(),
            *final(self) == (ImageLoad {
                stage: if result is Ok {
                    old(self).following()
                } else {
                    LoadStage::Done
                },
                ..*old(self)
            }),
            outcome == (match result {
                Err(error) => Err::<Option<ProcessLoadInfo>, BootstrapLoadError>(error),
                Ok(_) => if old(self).stage != LoadStage::Link {
                    Ok::<Option<ProcessLoadInfo>, BootstrapLoadError>(None)
                } else {
                    match moved(old(self).image, old(self).slide) {
                        Ok(info) => Ok::<Option<ProcessLoadInfo>, BootstrapLoadError>(Some(info)),
                        Err(defect) => Err::<Option<ProcessLoadInfo>, BootstrapLoadError>(
                            BootstrapLoadError::InvalidExecutable(defect),
                        ),
                    }
                },
            }),
    {
        if let Err(error) = result {
            self.stage = LoadStage::Done;
            return Err(error);
        }
        match self.stage {
            LoadStage::Region => {
                self.stage = if self.segments == 0 {
                    LoadStage::Link
                } else {
                    LoadStage::Segment(0)
                };
                Ok(None)
            },
            LoadStage::Segment(at) => {
                self.stage = if at + 1 < self.segments {
                    LoadStage::Segment(at + 1)
                } else {
                    LoadStage::Link
                };
                Ok(None)
            },
            _ => {
                self.stage = LoadStage::Done;
                match load_info(self.image, self.slide) {
                    Ok(info) => Ok(Some(info)),
                    Err(defect) => Err(BootstrapLoadError::InvalidExecutable(defect)),
                }
            },
        }
    }

    /// The stage that a load has come to after some steps without a failure.
    pub open spec fn stage_after(self, steps: int) -> LoadStage {
        if steps == 0 {
            LoadStage::Region
        } else if steps <= self.segments {
            LoadStage::Segment((steps - 1) as usize)
        } else if steps == self.segments + 1 {
            LoadStage::Link
        } else {
            LoadStage::Done
        }
    }
}

/// A load that meets no failure looks up the region, installs each segment once
/// and in order, and then links the image.
pub proof fn law_segments_are_installed_in_order(load: ImageLoad, steps: int)
    requires
        0 <= steps,
        load.stage == load.stage_after(steps),
    ensures
        load.wf(),
        load.following() == load.stage_after(steps + 1),
{
}

/// A load that ends well keeps the whole moved image inside the region.
pub proof fn law_load_of_fitting_image_ends_well(
    image: ImageLayout,
    user_base: usize,
    user_limit: usize,
)
    requires
        image.image_base <= image.entry_point <= image.image_end,
        image.image_end + slide_of(image.image_base, user_base) <= user_limit,
    ensures
        moved(image, slide_of(image.image_base, user_base) as usize) matches Ok(info)
            && info.image_end <= user_limit && (image.image_base <= user_base ==> info.image_base
            == user_base) && info.image_base <= info.entry_ip <= info.image_end,
{
}

/// Protection that a segment asks for.
#[derive(Debug, Clone, Copy, PartialEq, Eq, Structural)]
pub struct SegmentProtections {
    pub read: bool,
    pub write: bool,
    pub execute: bool,
}

/// Flags of the mapping of a segment: as it asks for, and for user code.
pub fn mapping_flags(protections: SegmentProtections) -> (flags: VmFlags)
    ensures
        flags == (VmFlags {
            read: protections.read,
            write: protections.write,
            execute: protections.execute,
            user: true,
            map: false,
        }),
{
    VmFlags {
        read: protections.read,
        write: protections.write,
        execute: protections.execute,
        user: true,
        map: false,
    }
}

/// What the first user code is told about its process.
#[derive(Debug, Clone, Copy, PartialEq, Eq, Structural)]
pub struct BootstrapUserAbi {
    pub entry_point: u64,
    pub process_self_slot: u32,
    pub root_ns_slot: u32,
    pub root_vmar_slot: u32,
    pub heap_vmar_slot: u32,
    pub mapped_vmar_slot: u32,
    pub syscall_table_slot: u32,
    pub page_size: u64,
    pub heap_base: u64,
    pub heap_limit: u64,
}

/// Tags under which the first user code is told things.
#[derive(Debug, Clone, Copy, PartialEq, Eq, Structural)]
pub struct AuxTags {
    pub null: u64,
    pub page_size: u64,
    pub entry: u64,
    pub process_self: u64,
    pub root_ns: u64,
    pub root_vmar: u64,
    pub syscall_table: u64,
    pub native_page_size: u64,
    pub heap_vmar: u64,
    pub mapped_vmar: u64,
    pub heap_base: u64,
    pub heap_limit: u64,
}

/// Number of words below the program name.
pub const STACK_WORDS: usize = 28;

/// Bytes of the program name with its terminator.
pub const NAME_BYTES: usize = 10;

/// Bytes of the words.
pub const STACK_WORD_BYTES: usize = 224;

/// The words at the first stack pointer: one argument, no environment, and the
/// tagged values up to the terminating tag.
pub open spec fn stack_words(abi: BootstrapUserAbi, tags: AuxTags, argv0: u64) -> Seq<u64> {
    seq![
        1,
        argv0,
        0,
        0,
        tags.page_size,
        abi.page_size,
        tags.entry,
        abi.entry_point,
        tags.process_self,
        abi.process_self_slot as u64,
        tags.root_ns,
        abi.root_ns_slot as u64,
        tags.root_vmar,
        abi.root_vmar_slot as u64,
        tags.syscall_table,
        abi.syscall_table_slot as u64,
        tags.native_page_size,
        abi.page_size,
        tags.heap_vmar,
        abi.heap_vmar_slot as u64,
        tags.mapped_vmar,
        abi.mapped_vmar_slot as u64,
        tags.heap_base,
        abi.heap_base,
        tags.heap_limit,
        abi.heap_limit,
        tags.null,
        0,
    ]
}

/// The number that eight bytes stand for, lowest byte first.
pub open spec fn word_at(bytes: Seq<u8>, at: int) -> int {
    bytes[at] + 0x100 * bytes[at + 1] + 0x1_0000 * bytes[at + 2] + 0x100_0000 * bytes[at + 3]
        + 0x1_0000_0000 * bytes[at + 4] + 0x100_0000_0000 * bytes[at + 5] + 0x1_0000_0000_0000
        * bytes[at + 6] + 0x100_0000_0000_0000 * bytes[at + 7]
}

/// The program name with its terminator.
pub open spec fn name_bytes() -> Seq<u8> {
    seq![98u8, 111u8, 111u8, 116u8, 115u8, 116u8, 114u8, 97u8, 112u8, 0u8]
}

fn put_word(bytes: &mut Vec<u8>, at: usize, word: u64)
    requires
        at + 8 <= old(bytes)@.len(),
    ensures
        final(bytes)@.len() == old(bytes)@.len(),
        word_at(final(bytes)@, at as int) == word,
        forall|i: int|
            0 <= i < old(bytes)@.len() && !(at <= i < at + 8) ==> #[trigger] final(bytes)@[i]
                == old(bytes)@[i],
{
    let len: usize = bytes.len();
    assert(at + 8 <= len);
    let w1: u64 = word / 0x100;
    let w2: u64 = w1 / 0x100;
    let w3: u64 = w2 / 0x100;
    let w4: u64 = w3 / 0x100;
    let w5: u64 = w4 / 0x100;
    let w6: u64 = w5 / 0x100;
    let w7: u64 = w6 / 0x100;
    bytes.set(at, (word % 0x100) as u8);
    bytes.set(at + 1, (w1 % 0x100) as u8);
    bytes.set(at + 2, (w2 % 0x100) as u8);
    bytes.set(at + 3, (w3 % 0x100) as u8);
    bytes.set(at + 4, (w4 % 0x100) as u8);
    bytes.set(at + 5, (w5 % 0x100) as u8);
    bytes.set(at + 6, (w6 % 0x100) as u8);
    bytes.set(at + 7, w7 as u8);
}

/// The first user stack.
#[derive(Debug)]
pub struct BootstrapStack {
    /// Contents of the whole stack.
    pub bytes: Vec<u8>,
    /// First stack pointer.
    pub pointer: u64,
}

/// Offset of the words in a stack of `size` bytes.
pub open spec fn words_offset(size: int) -> int {
    (size - NAME_BYTES - STACK_WORD_BYTES) / 16 * 16
}

/// Whether the contents of a stack are as the first user code expects them.
pub open spec fn is_bootstrap_stack(
    bytes: Seq<u8>,
    base: u64,
    abi: BootstrapUserAbi,
    tags: AuxTags,
) -> bool {
    let size = bytes.len() as int;
    let at = words_offset(size);
    let argv0 = (base + size - NAME_BYTES) as u64;
    &&& bytes.subrange(size - NAME_BYTES, size) == name_bytes()
    &&& forall|k: int|
        0 <= k < STACK_WORDS ==> word_at(bytes, at + 8 * k) == #[trigger] stack_words(
            abi,
            tags,
            argv0,
        )[k]
    &&& forall|i: int| 0 <= i < at ==> #[trigger] bytes[i] == 0
    &&& forall|i: int| at + STACK_WORD_BYTES <= i < size - NAME_BYTES ==> #[trigger] bytes[i] == 0
}

fn program_name() -> (name: Vec<u8>)
    ensures
        name@ == name_bytes(),
{
    let mut name: Vec<u8> = Vec::new();
    name.push(98);
    name.push(111);
    name.push(111);
    name.push(116);
    name.push(115);
    name.push(116);
    name.push(114);
    name.push(97);
    name.push(112);
    name.push(0);
    assert(name@ =~= name_bytes());
    name
}

fn initial_words(abi: &BootstrapUserAbi, tags: &AuxTags, argv0: u64) -> (words: Vec<u64>)
    ensures
        words@ == stack_words(*abi, *tags, argv0),
{
    let mut words: Vec<u64> = Vec::new();
    words.push(1);
    words.push(argv0);
    words.push(0);
    words.push(0);
    words.push(tags.page_size);
    words.push(abi.page_size);
    words.push(tags.entry);
    words.push(abi.entry_point);
    words.push(tags.process_self);
    words.push(abi.process_self_slot as u64);
    words.push(tags.root_ns);
    words.push(abi.root_ns_slot as u64);
    words.push(tags.root_vmar);
    words.push(abi.root_vmar_slot as u64);
    words.push(tags.syscall_table);
    words.push(abi.syscall_table_slot as u64);
    words.push(tags.native_page_size);
    words.push(abi.page_size);
    words.push(tags.heap_vmar);
    words.push(abi.heap_vmar_slot as u64);
    words.push(tags.mapped_vmar);
    words.push(abi.mapped_vmar_slot as u64);
    words.push(tags.heap_base);
    words.push(abi.heap_base);
    words.push(tags.heap_limit);
    words.push(abi.heap_limit);
    words.push(tags.null);
    words.push(0);
    assert(words@ =~= stack_words(*abi, *tags, argv0));
    words
}

/// Builds the first user stack: the program name at the top, and below it the
/// words at a pointer that is a multiple of sixteen bytes from the base.
pub fn build_bootstrap_stack(
    stack_base: u64,
    stack_size: usize,
    abi: &BootstrapUserAbi,
    tags: &AuxTags,
) -> (result: Result<BootstrapStack, ExecutableDefect>)
    ensures
        match result {
            Ok(stack) => {
                &&& stack_size >= NAME_BYTES + STACK_WORD_BYTES
                &&& stack_base + stack_size - NAME_BYTES <= u64::MAX
                &&& stack.bytes@.len() == stack_size
                &&& is_bootstrap_stack(stack.bytes@, stack_base, *abi, *tags)
                &&& stack.pointer == stack_base + words_offset(stack_size as int)
            },
            Err(defect) => if stack_size < NAME_BYTES {
                defect is StackTooSmall
            } else if stack_base + stack_size - NAME_BYTES > u64::MAX {
                defect is ArgumentPointerOverflow
            } else {
                defect is ArgumentsDoNotFit && stack_size < NAME_BYTES + STACK_WORD_BYTES
            },
        },
{
    if stack_size < NAME_BYTES {
        return Err(ExecutableDefect::StackTooSmall);
    }
    let name_at: usize = stack_size - NAME_BYTES;
    let argv0: u64 = match stack_base.checked_add(name_at as u64) {
        None => {
            return Err(ExecutableDefect::ArgumentPointerOverflow);
        },
        Some(argv0) => argv0,
    };
    if name_at < STACK_WORD_BYTES {
        return Err(ExecutableDefect::ArgumentsDoNotFit);
    }
    let words_at: usize = (name_at - STACK_WORD_BYTES) / 16 * 16;
    let mut bytes: Vec<u8> = Vec::new();
    while bytes.len() < stack_size
        invariant
            bytes@.len() <= stack_size,
            forall|i: int| 0 <= i < bytes@.len() ==> #[trigger] bytes@[i] == 0,
        decreases stack_size - bytes@.len(),
    {
        bytes.push(0);
    }
    let name = program_name();
    let mut i: usize = 0;
    while i < NAME_BYTES
        invariant
            i <= NAME_BYTES,
            name@ == name_bytes(),
            bytes@.len() == stack_size,
            stack_size >= NAME_BYTES,
            name_at == stack_size - NAME_BYTES,
            forall|j: int| 0 <= j < name_at ==> #[trigger] bytes@[j] == 0,
            forall|j: int| name_at <= j < name_at + i ==> #[trigger] bytes@[j] == name@[j - name_at],
        decreases NAME_BYTES - i,
    {
        bytes.set(name_at + i, name[i]);
        i = i + 1;
    }
    assert(bytes@.subrange(name_at as int, stack_size as int) =~= name_bytes());
    let words = initial_words(abi, tags, argv0);
    let mut k: usize = 0;
    while k < STACK_WORDS
        invariant
            k <= STACK_WORDS,
            words@ == stack_words(*abi, *tags, argv0),
            bytes@.len() == stack_size,
            stack_size >= NAME_BYTES + STACK_WORD_BYTES,
            name_at == stack_size - NAME_BYTES,
            words_at == words_offset(stack_size as int),
            words_at + STACK_WORD_BYTES <= name_at,
            bytes@.subrange(name_at as int, stack_size as int) == name_bytes(),
            forall|j: int| 0 <= j < words_at ==> #[trigger] bytes@[j] == 0,
            forall|j: int| words_at + 8 * k <= j < name_at ==> #[trigger] bytes@[j] == 0,
            forall|j: int|
                0 <= j < k ==> word_at(bytes@, words_at + 8 * j) == #[trigger] words@[j],
        decreases STACK_WORDS - k,
    {
        let ghost before = bytes@;
        put_word(&mut bytes, words_at + 8 * k, words[k]);
        assert(bytes@.subrange(name_at as int, stack_size as int) =~= before.subrange(
            name_at as int,
            stack_size as int,
        ));
        assert forall|j: int| 0 <= j < k + 1 implies word_at(bytes@, words_at + 8 * j)
            == #[trigger] words@[j] by {
            if j < k {
                assert(word_at(before, words_at + 8 * j) == words@[j]);
                assert forall|b: int| words_at + 8 * j <= b < words_at + 8 * j + 8 implies
                    #[trigger] bytes@[b] == before[b] by {}
            }
        }
        k = k + 1;
    }
    assert((stack_base + bytes@.len() - NAME_BYTES) as u64 == argv0);
    Ok(BootstrapStack { bytes, pointer: stack_base + words_at as u64 })
}

/// The first user stack starts on sixteen bytes if its base does, below the
/// program name that its first argument points to.
#[verifier::spinoff_prover]
#[verifier::rlimit(60)]
pub proof fn law_bootstrap_stack_is_readable(
    bytes: Seq<u8>,
    base: u64,
    abi: BootstrapUserAbi,
    tags: AuxTags,
)
    requires
        bytes.len() >= NAME_BYTES + STACK_WORD_BYTES,
        base + bytes.len() <= u64::MAX,
        base % 16 == 0,
        is_bootstrap_stack(bytes, base, abi, tags),
    ensures
        ({
            let at = words_offset(bytes.len() as int);
            &&& (base + at) % 16 == 0
            &&& word_at(bytes, at) == 1
            &&& word_at(bytes, at + 8) == base + bytes.len() - NAME_BYTES
            &&& word_at(bytes, at + 56) == abi.entry_point
            &&& word_at(bytes, at + 208) == tags.null
        }),
{
    let at = words_offset(bytes.len() as int);
    let argv0 = (base + bytes.len() - NAME_BYTES) as u64;
    let words = stack_words(abi, tags, argv0);
    assert(word_at(bytes, at + 8 * 0) == words[0]);
    assert(word_at(bytes, at + 8 * 1) == words[1]);
    assert(word_at(bytes, at + 8 * 7) == words[7]);
    assert(word_at(bytes, at + 8 * 26) == words[26]);
}

/// What the handles of the first user code are made from.
#[derive(Debug)]
pub struct BootstrapSources {
    /// What looking up where the heap is came to.
    pub heap_range: Result<VmRange, ProcessVmError>,
    /// Owner of the namespace of user code.
    pub root_ns: Handle,
    /// What looking up the heap came to, and the owner of its region.
    pub heap: Result<(), ProcessVmError>,
    pub heap_owner: Handle,
    /// What looking up the segment for mappings came to, and the owner of its
    /// region.
    pub mapped: Result<(), ProcessVmError>,
    pub mapped_owner: Handle,
    /// Owner of the system call table.
    pub syscall_table: Handle,
}

impl BootstrapSources {
    /// The handle of itself that a process starts with: it may only read, and of
    /// its interface only what `query` names.
    pub open spec fn process_self(process: Process, query: u32) -> Result<Handle, ObjectError> {
        match process.self_handle {
            None => Err(ObjectError::ObjectNotFound),
            Some(handle) => match handle.acquired() {
                Err(error) => Err(error),
                Ok(reference) => Ok(
                    reference.downgraded(
                        Capability::plain(false, true, true, false),
                        u32::MAX & !query,
                    ),
                ),
            },
        }
    }

    pub open spec fn namespace(self) -> Result<Handle, ObjectError> {
        self.root_ns.derived(Capability::plain(true, false, false, false), 0)
    }

    pub open spec fn heap_region(self, abi: VmAbi) -> Result<Handle, ObjectError> {
        Process::segment_made(self.heap, self.heap_owner, abi)
    }

    pub open spec fn mapped_region(self, abi: VmAbi) -> Result<Handle, ObjectError> {
        Process::segment_made(self.mapped, self.mapped_owner, abi)
    }

    pub open spec fn table(self) -> Result<Handle, ObjectError> {
        self.syscall_table.derived(Capability::plain(true, false, false, false), 0)
    }

    /// Whether everything that comes before the regions can be had.
    pub open spec fn ready(self, process: Process, abi: VmAbi, query: u32) -> bool {
        &&& self.heap_range is Ok
        &&& Self::process_self(process, query) is Ok
        &&& self.namespace() is Ok
        &&& process.root_derived(abi) is Ok
    }

    /// The first refusal, in the order in which the handles are made.
    pub open spec fn refusal(self, process: Process, abi: VmAbi, query: u32) -> Option<
        BootstrapLoadError,
    > {
        if self.heap_range is Err {
            Some(BootstrapLoadError::Vm(self.heap_range->Err_0))
        } else if Self::process_self(process, query) is Err {
            Some(BootstrapLoadError::Object(Self::process_self(process, query)->Err_0))
        } else if self.namespace() is Err {
            Some(BootstrapLoadError::Object(self.namespace()->Err_0))
        } else if process.root_derived(abi) is Err {
            Some(BootstrapLoadError::Object(process.root_derived(abi)->Err_0))
        } else if self.heap_region(abi) is Err {
            Some(BootstrapLoadError::Object(self.heap_region(abi)->Err_0))
        } else if self.mapped_region(abi) is Err {
            Some(BootstrapLoadError::Object(self.mapped_region(abi)->Err_0))
        } else if self.table() is Err {
            Some(BootstrapLoadError::Object(self.table()->Err_0))
        } else {
            None
        }
    }

    /// The six handles: the process itself, the root namespace, the root address
    /// region, the heap, the segment for mappings and the system call table.
    pub open spec fn handles(self, process: Process, abi: VmAbi, query: u32) -> Seq<Handle> {
        seq![
            Self::process_self(process, query)->Ok_0,
            self.namespace()->Ok_0,
            process.root_derived(abi)->Ok_0,
            self.heap_region(abi)->Ok_0,
            self.mapped_region(abi)->Ok_0,
            self.table()->Ok_0,
        ]
    }

    /// The owners that the process keeps: those of the regions that were made,
    /// also where something that comes later is refused.
    pub open spec fn owners(self, process: Process, abi: VmAbi, query: u32) -> Map<u64, Handle> {
        let kept = process.anon_objects@;
        if !self.ready(process, abi, query) || self.heap_region(abi) is Err {
            kept
        } else if self.mapped_region(abi) is Err {
            kept.insert(self.heap_owner.object, self.heap_owner)
        } else {
            kept.insert(self.heap_owner.object, self.heap_owner).insert(
                self.mapped_owner.object,
                self.mapped_owner,
            )
        }
    }
}

/// Makes the handles that the first user code starts with and puts them into the
/// process, once all of them could be made. `query` is the interface capability
/// to ask for the state of a process.
pub fn install_bootstrap_handles(
    process: &mut Process,
    entry_point: u64,
    sources: BootstrapSources,
    abi: &VmAbi,
    query: u32,
) -> (result: Result<BootstrapUserAbi, BootstrapLoadError>)
    requires
        old(process).wf(),
        old(process).handles@.dom().len() + 6 <= 0x1_0000_0000,
    ensures
        final(process).wf(),
        *final(process) == (Process {
            handles: final(process).handles,
            anon_objects: final(process).anon_objects,
            ..*old(process)
        }),
        final(process).anon_objects@ == sources.owners(*old(process), *abi, query),
        match sources.refusal(*old(process), *abi, query) {
            Some(error) => {
                &&& result == Err::<BootstrapUserAbi, BootstrapLoadError>(error)
                &&& final(process).handles@ == old(process).handles@
            },
            None => {
                let handles = sources.handles(*old(process), *abi, query);
                &&& result matches Ok(told)
                &&& ({
                    let slots = seq![
                        told.process_self_slot,
                        told.root_ns_slot,
                        told.root_vmar_slot,
                        told.heap_vmar_slot,
                        told.mapped_vmar_slot,
                        told.syscall_table_slot,
                    ];
                    &&& slots_in_turn(old(process).handles@, handles, slots)
                    &&& final(process).handles@ == table_after(
                        old(process).handles@,
                        handles,
                        slots,
                    )
                })
                &&& told.entry_point == entry_point
                &&& told.page_size == PAGE_SIZE
                &&& told.heap_base == sources.heap_range->Ok_0.first()
                &&& told.heap_limit == sources.heap_range->Ok_0.limit()
            },
        },
{
    let heap_range = match sources.heap_range {
        Err(error) => {
            return Err(BootstrapLoadError::Vm(error));
        },
        Ok(range) => range,
    };
    let process_self = match process.task_process_handle() {
        Err(error) => {
            return Err(BootstrapLoadError::Object(error));
        },
        Ok(handle) => {
            let mut dropped = Capability::none();
            dropped.write = true;
            dropped.execute = true;
            handle.downgrade(dropped, u32::MAX & !query)
        },
    };
    let root_ns = match sources.root_ns.derive_handle(read_rights(), 0) {
        Err(error) => {
            return Err(BootstrapLoadError::Object(error));
        },
        Ok(handle) => handle,
    };
    let root_vmar = match process.derive_root_vmar_handle(abi) {
        Err(error) => {
            return Err(BootstrapLoadError::Object(error));
        },
        Ok(handle) => handle,
    };
    let heap = match process.derive_segment_vmar_handle(sources.heap, sources.heap_owner, abi) {
        Err(error) => {
            return Err(BootstrapLoadError::Object(error));
        },
        Ok(handle) => handle,
    };
    let mapped = match process.derive_segment_vmar_handle(
        sources.mapped,
        sources.mapped_owner,
        abi,
    ) {
        Err(error) => {
            return Err(BootstrapLoadError::Object(error));
        },
        Ok(handle) => handle,
    };
    let syscall_table = match sources.syscall_table.derive_handle(read_rights(), 0) {
        Err(error) => {
            return Err(BootstrapLoadError::Object(error));
        },
        Ok(handle) => handle,
    };
    let mut handles: Vec<Handle> = Vec::new();
    handles.push(process_self);
    handles.push(root_ns);
    handles.push(root_vmar);
    handles.push(heap);
    handles.push(mapped);
    handles.push(syscall_table);
    assert(handles@ =~= sources.handles(*old(process), *abi, query));
    let slots = process.handles.install_handles(&handles);
    assert(slots@ =~= seq![slots@[0], slots@[1], slots@[2], slots@[3], slots@[4], slots@[5]]);
    Ok(
        BootstrapUserAbi {
            entry_point,
            process_self_slot: slots[0],
            root_ns_slot: slots[1],
            root_vmar_slot: slots[2],
            heap_vmar_slot: slots[3],
            mapped_vmar_slot: slots[4],
            syscall_table_slot: slots[5],
            page_size: PAGE_SIZE as u64,
            heap_base: heap_range.start() as u64,
            heap_limit: heap_range.end() as u64,
        },
    )
}

/// The first user code can only look at its own process, at the namespace, at the
/// root address region and at the system call table; it can change its heap and
/// its mappings. None of its handles can be sent on or administered.
pub proof fn law_bootstrap_handles_are_confined(
    sources: BootstrapSources,
    process: Process,
    abi: VmAbi,
    query: u32,
    i: int,
)
    requires
        sources.refusal(process, abi, query) is None,
        process.self_handle == Some(live_handle(process.self_handle->Some_0)),
        0 <= i < 6,
    ensures
        sources.handles(process, abi, query)[i].capabilities == Capability::plain(
            true,
            i == 3 || i == 4,
            false,
            false,
        ),
        i == 0 ==> sources.handles(process, abi, query)[i].interface_caps & query
            == sources.handles(process, abi, query)[i].interface_caps,
{
    let own = process.self_handle->Some_0.interface_caps;
    assert((own & !(0xffff_ffffu32 & !query)) & query == own & !(0xffff_ffffu32 & !query))
        by (bit_vector);
}

} // verus!
