//! What processes guarantee, stated over addresses, slots, rights and tasks.

use super::control::{
    ProcessAbi, ProcessControl, ProcessControlAdminGuard, ProcessControlReadGuard,
    ProcessControlWriteGuard, ProcessMethod,
};
use super::lifecycle::{
    admin_rights, withheld, InheritRequest, Process, ProcessVmSegment, ProcessWaitError, SpawnError,
    SpawnTaskError, WaitStep,
};
use super::loader::{
    aligned_up, moved, name_bytes, slide_of, stack_words, words_offset, AuxTags, BootstrapLoadError,
    BootstrapSources, BootstrapUserAbi, ImageLayout, ProcessLoadError, SegmentFailure, SegmentStep,
};
use super::manager::{ProcessManager, ProcessVmError, VmError};
use super::objects::{PortObject, VmAbi};
use super::tasks::{ProcessReapAction, ProcessTasks};
use super::vm::{
    fault_plan, first_failure, guard_error, range_pages, CopyStep, FaultPlan, PagerStep,
    ProcessUserFaultResolution, RegionPurpose, VSpaceError,
    VmFaultResolution, VmPointerRegion, VmarEntry,
};
use crate::ipc::cap::covers;
use crate::memory::range::VmRange;
use crate::object::{Capability, Handle, ObjectError};
use crate::sched::cpus::{SchedulerSet, WakeNotice};
use crate::sched::task::{Task, TaskExit, TaskId};
use crate::sched::user::FaultAttempt;
use vstd::prelude::*;

verus! {

/// An image that was linked below the region of user code is moved to its start,
/// and one that was linked above it stays where it is.
pub proof fn law_image_is_moved_up(image_base: usize, user_base: usize)
    ensures
        image_base < user_base ==> image_base + slide_of(image_base, user_base) == user_base,
        image_base >= user_base ==> slide_of(image_base, user_base) == 0,
{
}

/// All addresses of an image move by the same distance.
pub proof fn law_image_keeps_its_shape(image: ImageLayout, slide: usize)
    ensures
        moved(image, slide) matches Ok(info) ==> {
            &&& info.slide == slide
            &&& info.image_base == image.image_base + slide
            &&& info.image_end - info.image_base == image.image_end - image.image_base
            &&& info.entry_ip - info.image_base == image.entry_point - image.image_base
        },
        moved(image, slide) is Ok <==> image.image_base + slide <= usize::MAX && image.image_end
            + slide <= usize::MAX && image.entry_point + slide <= usize::MAX,
{
}

/// A segment takes up whole pages, no more than it needs.
pub proof fn law_segment_takes_whole_pages(size: int)
    requires
        0 <= size,
    ensures
        aligned_up(size) % 4096 == 0,
        size <= aligned_up(size) < size + 4096,
{
}

/// What keeps an image from being parsed or linked makes it a bad image. What
/// keeps it from being mapped does not.
pub proof fn law_load_errors_blame_the_image(error: BootstrapLoadError)
    ensures
        error.told() == ProcessLoadError::MappingFailed <==> error is Object || error is Vm,
        error.told() == ProcessLoadError::InvalidImage <==> error is Image || error is Link
            || error is InvalidExecutable,
{
}

/// A segment is installed once it has its range, its pages and its contents, in
/// that order.
pub proof fn law_segment_needs_all_of_its_parts(step: SegmentStep, result: Result<(), ObjectError>)
    ensures
        step.following(result) == SegmentStep::Done(Ok(())) ==> step == SegmentStep::Done(Ok(()))
            || (step is Contents && result is Ok),
        step.following(result) is Contents ==> step is Pages && result is Ok,
        step.following(result) is Pages ==> step is Enter && result is Ok,
        step is Enter && result is Err ==> step.following(result) == SegmentStep::Done(
            Err(SegmentFailure::Mapping),
        ),
{
}

/// The words of the first stack are an argument count, the arguments, no
/// environment, and pairs of a tag and a value.
pub proof fn law_stack_words_tell_the_process(
    abi: BootstrapUserAbi,
    tags: AuxTags,
    argv0: u64,
)
    ensures
        ({
            let words = stack_words(abi, tags, argv0);
            &&& words.len() == 28
            &&& words[0] == 1
            &&& words[1] == argv0
            &&& words[2] == 0
            &&& words[3] == 0
            &&& words[4] == tags.page_size && words[5] == abi.page_size
            &&& words[6] == tags.entry && words[7] == abi.entry_point
            &&& words[8] == tags.process_self && words[9] == abi.process_self_slot
            &&& words[10] == tags.root_ns && words[11] == abi.root_ns_slot
            &&& words[12] == tags.root_vmar && words[13] == abi.root_vmar_slot
            &&& words[14] == tags.syscall_table && words[15] == abi.syscall_table_slot
            &&& words[16] == tags.native_page_size && words[17] == abi.page_size
            &&& words[18] == tags.heap_vmar && words[19] == abi.heap_vmar_slot
            &&& words[20] == tags.mapped_vmar && words[21] == abi.mapped_vmar_slot
            &&& words[22] == tags.heap_base && words[23] == abi.heap_base
            &&& words[24] == tags.heap_limit && words[25] == abi.heap_limit
            &&& words[26] == tags.null && words[27] == 0
        }),
{
}

/// The words of the first stack lie on sixteen bytes and end just below the name
/// of the program, which has ten bytes.
pub proof fn law_stack_words_lie_below_the_name(size: int)
    requires
        size >= 8 * 28 + 10,
    ensures
        0 <= words_offset(size),
        words_offset(size) % 16 == 0,
        words_offset(size) + 8 * 28 <= size - 10 < words_offset(size) + 8 * 28 + 16,
        name_bytes().len() == 10,
{
}

/// The first program is called `bootstrap`, and its name ends with a zero byte.
pub proof fn law_first_program_has_a_name()
    ensures
        name_bytes().last() == 0,
        forall|i: int| 0 <= i < 9 ==> #[trigger] name_bytes()[i] as int == "bootstrap"@[i] as int,
        "bootstrap"@.len() == 9,
{
    reveal_strlit("bootstrap");
}

/// A process that got its first handles keeps the owners of its heap and of its
/// segment for mappings, and those that it had.
pub proof fn law_first_regions_keep_their_owners(
    sources: BootstrapSources,
    process: Process,
    abi: VmAbi,
    query: u32,
    key: u64,
)
    requires
        sources.refusal(process, abi, query) is None,
        sources.heap_owner.object != sources.mapped_owner.object,
    ensures
        ({
            let owners = sources.owners(process, abi, query);
            &&& owners.contains_key(sources.heap_owner.object)
            &&& owners[sources.heap_owner.object] == sources.heap_owner
            &&& owners.contains_key(sources.mapped_owner.object)
            &&& owners[sources.mapped_owner.object] == sources.mapped_owner
            &&& process.anon_objects@.contains_key(key) ==> owners.contains_key(key)
            &&& key != sources.heap_owner.object && key != sources.mapped_owner.object ==> (
            owners.contains_key(key) <==> process.anon_objects@.contains_key(key))
        }),
{
}

proof fn lemma_pages_contain(entries: Seq<VmarEntry>, count: nat, page: usize)
    requires
        count <= entries.len(),
    ensures
        VmarEntry::pages_of(entries, count).contains(page) <==> exists|i: int|
            0 <= i < count && (#[trigger] entries[i]).pages().contains(page),
    decreases count,
{
    if count > 0 {
        let before = VmarEntry::pages_of(entries, (count - 1) as nat);
        let last = entries[count - 1].pages();
        let all = VmarEntry::pages_of(entries, count);
        lemma_pages_contain(entries, (count - 1) as nat, page);
        assert(all == before + last);
        if all.contains(page) {
            let k = choose|k: int| 0 <= k < all.len() && all[k] == page;
            if k < before.len() {
                assert(before[k] == page);
            } else {
                assert(last[k - before.len()] == page);
            }
        }
        if before.contains(page) {
            let k = choose|k: int| 0 <= k < before.len() && before[k] == page;
            assert(all[k] == page);
        }
        if last.contains(page) {
            let k = choose|k: int| 0 <= k < last.len() && last[k] == page;
            assert(all[before.len() + k] == page);
        }
    }
}

/// The mapped pages of a region are those of the entries in it. A guard has none.
pub proof fn law_region_has_the_pages_of_its_entries(
    range: VmRange,
    children: Vec<VmarEntry>,
    page: usize,
)
    ensures
        (VmarEntry::Region { range, children }).pages().contains(page) <==> exists|i: int|
            0 <= i < children@.len() && (#[trigger] children@[i]).pages().contains(page),
        (VmarEntry::Mapping(range)).pages() == range_pages(range),
        (VmarEntry::Guard(range)).pages().len() == 0,
{
    lemma_pages_contain(children@, children@.len(), page);
}

/// A walk over pages is told as the first page that failed. A page that may be
/// missing does not count where it is.
pub proof fn law_first_failed_page_is_told(
    results: Seq<Result<(), ObjectError>>,
    tolerate_missing: bool,
    at: int,
)
    requires
        0 <= at <= results.len(),
        forall|k: int|
            0 <= k < at ==> (#[trigger] results[k] is Ok || (tolerate_missing && results[k]->Err_0
                is ObjectNotFound)),
        at < results.len() ==> results[at] is Err && !(tolerate_missing && results[at]->Err_0
            is ObjectNotFound),
    ensures
        at < results.len() ==> first_failure(results, tolerate_missing) == Some(results[at]->Err_0),
        at == results.len() ==> first_failure(results, tolerate_missing) is None,
    decreases results.len(),
{
    if results.len() > 0 {
        let rest = results.drop_last();
        if at < results.len() {
            law_first_failed_page_is_told(rest, tolerate_missing, at);
            if at < rest.len() {
                assert(rest[at] == results[at]);
            }
        } else {
            law_first_failed_page_is_told(rest, tolerate_missing, at - 1);
        }
    }
}

/// A fault on a page that is there is answered by installing it, on a private page
/// that is written by copying it, and on a page with a pager by waiting for it.
/// Any other ends the program, and says where and why.
pub proof fn law_faults_are_answered(addr: usize, write: bool, region: VmPointerRegion)
    ensures
        fault_plan(addr, write, region) is InstallPage <==> region == VmPointerRegion::Mapping(
            VmFaultResolution::RetryAfterMap,
        ),
        fault_plan(addr, write, region) is CopyPage <==> write && region
            == VmPointerRegion::Mapping(VmFaultResolution::PrivateCow),
        fault_plan(addr, write, region) matches FaultPlan::Done(
            ProcessUserFaultResolution::Block(fault),
        ) ==> region == VmPointerRegion::Mapping(VmFaultResolution::PagerBacked) && fault.addr
            == addr && fault.write == write,
        fault_plan(addr, write, region) matches FaultPlan::Done(
            ProcessUserFaultResolution::Terminate(fault),
        ) ==> fault.addr == addr && fault.write == write && fault.region == region,
        region == VmPointerRegion::Mapping(VmFaultResolution::PagerBacked) ==> fault_plan(
            addr,
            write,
            region,
        ) is Done && fault_plan(addr, write, region)->Done_0 is Block,
        !(fault_plan(addr, write, region) == FaultPlan::Done(ProcessUserFaultResolution::Resume)),
{
}

/// Each place of a fault has a kind of its own.
pub proof fn law_fault_kinds_tell_places_apart(a: VmPointerRegion, b: VmPointerRegion)
    ensures
        a.kind() == b.kind() ==> a == b,
        (VmPointerRegion::GuardPage).kind() is GuardPage,
        (VmPointerRegion::Unmapped).kind() is NotMapped,
        (VmPointerRegion::Static).kind() is StaticLayout,
        (VmPointerRegion::Reserved).kind() is ReservedRange,
        (VmPointerRegion::Mapping(VmFaultResolution::ProtectionDenied)).kind() is ProtectionDenied,
        (VmPointerRegion::Mapping(VmFaultResolution::InvalidRange)).kind() is InvalidMappingRange,
        (VmPointerRegion::Mapping(VmFaultResolution::RetryAfterMap)).kind() is RetryAfterMap,
        (VmPointerRegion::Mapping(VmFaultResolution::Unresolved)).kind() is UnresolvedMapping,
        (VmPointerRegion::Mapping(VmFaultResolution::PrivateCow)).kind() is PrivateCow,
        (VmPointerRegion::Mapping(VmFaultResolution::PagerBacked)).kind() is PagerBacked,
{
}

/// A program goes on behind a private page only once the page was copied and then
/// installed.
pub proof fn law_program_goes_on_with_its_copy(step: CopyStep, addr: usize, done: bool)
    ensures
        step.after(addr, done) == CopyStep::Done(ProcessUserFaultResolution::Resume) ==> step
            == CopyStep::Done(ProcessUserFaultResolution::Resume) || (step is Install && done),
        step.after(addr, done) is Install ==> step is Copy && done,
        !(step is Done) && !done ==> step.after(addr, done) is Done && step.after(
            addr,
            done,
        )->Done_0 is Terminate,
{
}

/// A page comes from its pager only once the pager has brought it and it was
/// installed.
pub proof fn law_page_comes_from_its_pager(step: PagerStep, done: bool)
    ensures
        step.after(done) == PagerStep::Done(FaultAttempt::Paged(true)) ==> step == PagerStep::Done(
            FaultAttempt::Paged(true),
        ) || (step is Install && done),
        step.after(done) is Install ==> step is Ask && done,
{
}

/// Errors of an address space keep their names.
pub proof fn law_space_errors_keep_their_names(error: VSpaceError)
    ensures
        error.vm() is InvalidRange <==> error is InvalidRange,
        error.vm() is AlreadyMapped <==> error is AlreadyMapped,
        error.vm() is NotMapped <==> error is NotMapped,
        error.vm() is PermissionDenied <==> error is PermissionDenied,
{
}

/// A failure of the page tables is told as the caller names bad arguments and
/// missing pages, and otherwise as it is.
pub proof fn law_table_errors_are_named_by_the_caller(
    error: ObjectError,
    invalid: VmError,
    missing: VmError,
)
    ensures
        error is InvalidArgument ==> guard_error(error, invalid, missing)
            == ProcessVmError::Underlying(invalid),
        error is ObjectNotFound ==> guard_error(error, invalid, missing)
            == ProcessVmError::Underlying(missing),
        !(error is InvalidArgument) && !(error is ObjectNotFound) ==> guard_error(
            error,
            invalid,
            missing,
        ) == ProcessVmError::Object(error),
{
}

/// Memory is accounted to what its region is for.
pub proof fn law_pages_are_accounted_to_their_use(purpose: RegionPurpose)
    ensures
        purpose.page_purpose() is Heap <==> purpose is KernelHeap,
        purpose.page_purpose() is Stack <==> purpose is KernelStack,
        purpose.page_purpose() is PageTable <==> purpose is PageTable,
        purpose.page_purpose() is Dma <==> purpose is DeviceMmio,
        purpose.page_purpose() is KernelMeta <==> purpose is KernelText || purpose is KernelData,
        purpose.page_purpose() is Anonymous <==> purpose is General || purpose is User,
{
}

/// A derived handle goes to a slot that was free, refers to the same object and
/// has the rights that were asked for. No other slot changes.
pub proof fn law_derived_handle_goes_to_a_free_slot(
    before: Map<u64, Handle>,
    after: Map<u64, Handle>,
    slot: u32,
    capability: Capability,
    interface_caps: u32,
    result: Result<u32, ObjectError>,
    other: u64,
)
    requires
        Process::derive_effect(before, after, slot, capability, interface_caps, result),
    ensures
        result is Err ==> after == before,
        result is Ok <==> before.contains_key(slot as u64) && before[slot as u64].derive_refusal
            is None,
        result matches Ok(fresh) ==> {
            &&& !before.contains_key(fresh as u64)
            &&& after.contains_key(fresh as u64)
            &&& after[fresh as u64].object == before[slot as u64].object
            &&& after[fresh as u64].capabilities == capability
            &&& after[fresh as u64].interface_caps == interface_caps
            &&& other != fresh as u64 ==> (after.contains_key(other) <==> before.contains_key(
                other,
            )) && after[other] == before[other]
            &&& before.contains_key(other) ==> other != fresh as u64
        },
{
}

/// Destroying an object frees its slot. Its owner goes with the last slot that
/// refers to it, and no other owner does.
pub proof fn law_owner_goes_with_its_last_slot(
    before: Process,
    after: Process,
    slot: u32,
    result: Result<(), ObjectError>,
    key: u64,
)
    requires
        Process::destroy_effect(before, after, slot, result),
        before.anon_objects@.contains_key(key),
    ensures
        !after.handles@.contains_key(slot as u64),
        forall|other: u64|
            other != slot as u64 && before.handles@.contains_key(other)
                ==> #[trigger] after.handles@.contains_key(other) && after.handles@[other]
                == before.handles@[other],
        result is Ok ==> before.handles@.contains_key(slot as u64),
        !after.anon_objects@.contains_key(key) ==> {
            &&& result is Ok
            &&& before.handles@[slot as u64].object == key
            &&& forall|other: u64| #[trigger]
                after.handles@.contains_key(other) && after.handles@[other].key_refusal is None
                    ==> after.handles@[other].object != key
        },
        result is Ok && before.handles@[slot as u64].object == key && (forall|other: u64| #[trigger]
            after.handles@.contains_key(other) ==> after.handles@[other].object != key)
            ==> !after.anon_objects@.contains_key(key),
{
    if !after.anon_objects@.contains_key(key) {
        assert forall|other: u64| #[trigger]
            after.handles@.contains_key(other) && after.handles@[other].key_refusal
                is None implies after.handles@[other].object != key by {
            assert(after.handles@.dom().contains(other));
        }
    }
}

/// A creator passes on a handle that it may send, with the rights that it asks
/// for, into a slot that is free.
pub proof fn law_sendable_handles_are_inherited(process: Process, request: InheritRequest)
    ensures
        process.inheritable(request) ==> {
            &&& request.source is Ok
            &&& request.source->Ok_0.capabilities.send
            &&& request.capability is Some
            &&& request.target_slot matches Some(slot) ==> !process.handles@.contains_key(
                slot as u64,
            )
            &&& request.derived() is Ok
            &&& request.derived()->Ok_0.object == request.source->Ok_0.object
            &&& request.derived()->Ok_0.capabilities == request.capability->Some_0
            &&& request.derived()->Ok_0.interface_caps == request.interface_caps
        },
        request.source is Ok && request.source->Ok_0.capabilities.send
            && request.source->Ok_0.derive_refusal is None && request.capability is Some
            && request.target_slot is None ==> process.inheritable(request),
{
}

/// The administrator of a new object has just the rights that were asked for of
/// those to read, write and execute, and never those of an agent.
pub proof fn law_administrator_has_the_asked_rights(owner: Handle, capability: Capability)
    requires
        admin_rights(capability),
        owner.capabilities.includes(Capability { agent: false, send: false, ..capability }),
    ensures
        ({
            let handed = owner.downgraded(withheld(capability), 0);
            &&& capability.admin
            &&& handed.object == owner.object
            &&& handed.capabilities.admin
            &&& !handed.capabilities.agent
            &&& handed.capabilities.read == capability.read
            &&& handed.capabilities.write == capability.write
            &&& handed.capabilities.execute == capability.execute
            &&& handed.interface_caps == owner.interface_caps
        }),
{
    let caps = owner.interface_caps;
    assert(caps & !0u32 == caps) by (bit_vector);
}

/// The administration of an object comes neither with the rights of an agent nor
/// with the right to send.
pub proof fn law_administration_comes_alone(capability: Capability)
    ensures
        admin_rights(capability) ==> !capability.agent && !capability.send && capability.admin,
        !capability.agent && !capability.send && capability.admin ==> admin_rights(capability),
{
}

/// The maker of an object gets a handle to it with the rights of its kind.
pub proof fn law_maker_gets_the_rights(owner: Handle, capability: Capability, interface_caps: u32)
    ensures
        Process::made(owner, capability, interface_caps) is Ok <==> owner.derive_refusal is None
            && owner.key_refusal is None,
        Process::made(owner, capability, interface_caps) matches Ok(public) ==> public.object
            == owner.object && public.capabilities == capability && public.interface_caps
            == interface_caps,
{
}

/// The maker of a port can send through it and receive from it, can bind a
/// receiver only to a unicast port, and can subscribe only where there are
/// subscribers. A reply port takes one message, so nothing is written to it.
pub proof fn law_port_handles_fit_the_port(port: PortObject)
    ensures
        port.caps() / 0x40 % 2 == 1,
        port.caps() % 4 == 3 <==> !(port is Bus),
        port.caps() % 4 == 0 <==> port is Bus,
        port.caps() / 0x10 % 2 == 1 <==> port is Unicast,
        port.caps() / 4 % 4 == 3 <==> port is Broadcast || port is Bus,
        port.caps() / 4 % 4 == 0 <==> port is Unicast || port is Reply,
        port.caps() / 0x800 == 3 <==> port is Bus,
        port.caps() / 0x800 == 0 <==> !(port is Bus),
        port.rights().read,
        port.rights().execute,
        port.rights().send,
        !port.rights().admin,
        !port.rights().agent,
        port.rights().write <==> !(port is Reply),
{
    assert(0x1u32 | 0x2 | 0x10 | 0x40 == 0x53 && 0x1u32 | 0x2 | 0x4 | 0x8 | 0x40 == 0x4f && 0x800u32
        | 0x1000 | 0x4 | 0x8 | 0x40 == 0x184c && 0x1u32 | 0x2 | 0x40 == 0x43) by (bit_vector);
}

/// A region of user memory may be read and written, not executed nor sent on.
pub proof fn law_segment_handles_are_for_data(
    segment: Result<(), ProcessVmError>,
    owner: Handle,
    abi: VmAbi,
)
    ensures
        Process::segment_made(segment, owner, abi) matches Ok(handle) ==> {
            &&& segment is Ok
            &&& handle.object == owner.object
            &&& handle.capabilities.read
            &&& handle.capabilities.write
            &&& !handle.capabilities.execute
            &&& !handle.capabilities.send
            &&& !handle.capabilities.admin
            &&& handle.interface_caps == abi.vmar_caps
        },
        segment is Err ==> Process::segment_made(segment, owner, abi) is Err,
{
}

/// A process is live while it runs, and in creation as long as it is looked at by
/// its creator.
pub proof fn law_phase_is_visible(control: ProcessControl, process: Process)
    ensures
        control.visible_phase(process) is Creating <==> control.mode is Creating,
        control.visible_phase(process) is Live <==> !(control.mode is Creating)
            && process.tasks.phase is Running,
        control.visible_phase(process) is Terminating <==> !(control.mode is Creating) && !(
        process.tasks.phase is Running),
{
}

/// A wait ends with the exit code once there is one. Without it a wait of no time
/// is refused, and any other listens for as long as it was given.
pub proof fn law_wait_ends_with_the_exit_code(
    control: ProcessControl,
    process: Process,
    timeout_ns: usize,
)
    requires
        !(control.mode is Creating),
    ensures
        process.tasks.exit_code matches Some(code) ==> control.wait_step(process, timeout_ns)
            == WaitStep::Done(Ok(code)),
        process.tasks.exit_code is None && timeout_ns == 0 ==> control.wait_step(
            process,
            timeout_ns,
        ) == WaitStep::Done(Err(ProcessWaitError::WouldBlock)),
        process.tasks.exit_code is None && timeout_ns > 0 ==> {
            &&& control.wait_step(process, timeout_ns) matches WaitStep::Listen(limit)
            &&& limit is None <==> timeout_ns == usize::MAX
            &&& limit matches Some(span) ==> span.nanos == timeout_ns
        },
{
}

/// The creator of a process is told that it ran out of memory, that the process
/// was in no state for it, or that something else went wrong.
pub proof fn law_spawn_errors_are_told(error: SpawnError)
    ensures
        error.told() is OutOfMemory <==> error is OutOfMemory,
        error.told() is Internal <==> error matches SpawnError::Scheduler(
            SpawnTaskError::Scheduler(_),
        ),
        error.told() is InvalidState <==> error is Object || (error matches SpawnError::Scheduler(
            SpawnTaskError::Object(_),
        )),
{
}

/// The first task that exits its process ends it: its code is kept, every other
/// task is to be cancelled, and the process has exited once none is left.
pub proof fn law_first_exit_ends_the_process(
    before: ProcessTasks,
    after: ProcessTasks,
    task_id: TaskId,
    code: usize,
    result: Result<ProcessReapAction, ObjectError>,
    other: TaskId,
)
    requires
        ProcessTasks::reap_effect(before, after, task_id, TaskExit::ProcessExited(code), result),
        before.members().contains(task_id),
        !before.terminating,
    ensures
        after.exit_code == Some(code),
        after.terminating,
        !after.members().contains(task_id),
        result matches Ok(ProcessReapAction::ProcessExited { code: told, cancel }) && told == code
            && (cancel@.contains(other) <==> before.members().contains(other) && other != task_id),
        after.phase is Exited <==> forall|id: TaskId|
            before.members().contains(id) ==> id == task_id,
        after.phase is Exited || after.phase is Terminating,
{
    if let Ok(ProcessReapAction::ProcessExited { code: told, cancel }) = result {
        assert(cancel@.to_set().contains(other) <==> cancel@.contains(other));
    }
    let rest = before.members().remove(task_id);
    if after.phase is Exited {
        assert forall|id: TaskId| before.members().contains(id) implies id == task_id by {
            assert(rest.contains(id) ==> !rest.is_empty());
        }
    } else {
        let id = choose|id: TaskId| rest.contains(id);
        assert(rest.contains(id)) by {
            if forall|id: TaskId| !rest.contains(id) {
                assert(rest =~= Set::empty());
            }
        }
    }
}

/// A task that ends alone leaves the process as it was, but for its own place
/// there. It is the last of a process that is ending when that one has exited.
pub proof fn law_single_exit_leaves_the_process(
    before: ProcessTasks,
    after: ProcessTasks,
    task_id: TaskId,
    exit: TaskExit,
    result: Result<ProcessReapAction, ObjectError>,
    other: TaskId,
)
    requires
        ProcessTasks::reap_effect(before, after, task_id, exit, result),
        before.members().contains(task_id),
        before.terminating || !(exit is ProcessExited),
    ensures
        result matches Ok(ProcessReapAction::Detached),
        after.exit_code == before.exit_code,
        after.members().contains(other) <==> before.members().contains(other) && other != task_id,
        !before.terminating ==> after.phase == before.phase,
        before.terminating && after.members().contains(other) ==> after.phase == before.phase,
{
}

/// A spawned task belongs to its process and to one processor, which has a wakeup
/// of it and is told. A refused one leaves nothing behind.
pub proof fn law_spawned_task_is_known_everywhere(
    before: ProcessManager,
    set_before: SchedulerSet,
    after: ProcessManager,
    set_after: SchedulerSet,
    cpu_id: usize,
    task: Task,
    current_cpu: usize,
    result: Result<(TaskId, WakeNotice), SpawnTaskError>,
)
    requires
        ProcessManager::spawn_effect(
            before,
            set_before,
            after,
            set_after,
            cpu_id,
            task,
            current_cpu,
            result,
        ),
        set_before.installed(cpu_id as int),
    ensures
        ({
            let members = after.processes@[task.process_id].tasks.members();
            let earlier = before.processes@[task.process_id].tasks;
            &&& result matches Ok(told) ==> {
                &&& told.0 == task.id
                &&& cpu_id == current_cpu ==> told.1 is PreemptLocal
                &&& cpu_id != current_cpu ==> told.1 == WakeNotice::Interrupt(cpu_id)
                &&& members == earlier.members().insert(task.id)
                &&& set_after.tasks@.contains_key(task.id)
                &&& set_after.cpu(cpu_id as int).owned@.contains_key(task.id)
                &&& set_after.cpu(cpu_id as int).wake_inbox@.last() == task.id
            }
            &&& result is Err ==> members == earlier.members() && set_after.tasks@
                == set_before.tasks@
            &&& result is Ok ==> !earlier.terminating && !earlier.members().contains(task.id)
                && !task.execution.cancel_requested
        }),
{
}

/// A handle asks for the phase on the read plane, passes handles and regions on
/// the write plane, and waits or aborts on the administration plane, each with the
/// capability for it.
pub proof fn law_each_plane_has_its_methods(
    read: ProcessControlReadGuard,
    write: ProcessControlWriteGuard,
    admin: ProcessControlAdminGuard,
    abi: ProcessAbi,
    method: ProcessMethod,
)
    ensures
        read.refusal(abi, Some(method)) is None <==> method is QueryPhase && covers(
            read.interface_caps,
            abi.query,
        ),
        write.refusal(abi, Some(method)) is None <==> (method is InheritHandle && covers(
            write.interface_caps,
            abi.inherit_handle,
        )) || (method is DeriveSegmentVmar && covers(
            write.interface_caps,
            abi.derive_segment_vmar,
        )),
        admin.refusal(abi, Some(method)) is None <==> (method is AbortCreation && covers(
            admin.interface_caps,
            abi.abort,
        )) || (method is Wait && covers(admin.interface_caps, abi.wait)),
        read.refusal(abi, None) is Some,
        write.refusal(abi, None) is Some,
        admin.refusal(abi, None) is Some,
{
}

/// Only the creator of a process, and only while it creates, is handed the regions
/// of the process.
pub proof fn law_only_the_creator_gets_regions(
    control: ProcessControl,
    process: Process,
    segment: ProcessVmSegment,
)
    ensures
        control.load().segment_for(process, segment) is Ok <==> control.mode is Creating
            && process.creating_owner is Some,
        control.load().segment_for(process, segment) matches Ok(layout) ==> layout
            == segment.layout(),
{
}

/// The first task enters where it was asked to, or else where its image says.
pub proof fn law_first_task_enters_its_image(process: Process, entry: usize)
    ensures
        entry != 0 ==> process.initial_entry(entry) == entry,
        entry == 0 ==> (process.loaded_image matches Some(image) ==> process.initial_entry(entry)
            == image.entry_ip),
{
}

} // verus!
