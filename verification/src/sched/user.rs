//! Where user code may start, and what a task does each time it leaves user
//! code.

use vstd::prelude::*;

use super::process::tasks::{handle_fault, ProcessFaultAction, TrapReason};
use super::task::{ServiceDelivery, TaskExit};

verus! {

/// Parts of the address space with a fixed purpose.
#[derive(Debug, Clone, Copy, PartialEq, Eq, Structural)]
pub enum VmLayoutSegment {
    UserImage,
    UserMapped,
    UserHeap,
    UserStack,
    UserMmio,
    KernelStack,
    /// Any other part that belongs to the kernel.
    Kernel,
}

impl VmLayoutSegment {
    pub open spec fn user(self) -> bool {
        !(self is KernelStack || self is Kernel)
    }

    /// Whether user code may live in the segment.
    pub fn is_user(self) -> (user: bool)
        ensures
            user == self.user(),
    {
        !matches!(self, VmLayoutSegment::KernelStack | VmLayoutSegment::Kernel)
    }
}

/// Access rights and uses of a mapping.
#[derive(Debug, Clone, Copy, PartialEq, Eq, Structural)]
pub struct VmFlags {
    pub read: bool,
    pub write: bool,
    pub execute: bool,
    pub user: bool,
    pub map: bool,
}

/// What the address space says of one address.
#[derive(Debug, Clone, Copy, PartialEq, Eq, Structural)]
pub struct AddressProbe {
    /// The segment that the address lies in.
    pub segment: Option<VmLayoutSegment>,
    /// The flags of the mapping that covers it.
    pub mapping: Option<VmFlags>,
}

/// Why a user task cannot be started.
#[derive(Debug, Clone, Copy, PartialEq, Eq, Structural)]
pub enum ProcessSpawnError {
    InvalidState,
    InvalidInstructionPointer,
    InvalidStackPointer,
    InvalidTlsBase,
    OutOfMemory,
    Internal,
}

/// Whether code may start at `entry`.
pub open spec fn entry_ok(entry: usize, at: AddressProbe) -> bool {
    &&& entry != 0
    &&& at.segment == Some(VmLayoutSegment::UserImage)
    &&& at.mapping matches Some(flags) && flags.user && flags.execute
}

/// Whether a stack may start at `stack_pointer`.
pub open spec fn stack_ok(stack_pointer: usize, below: AddressProbe) -> bool {
    &&& stack_pointer != 0
    &&& stack_pointer % 16 == 0
    &&& below.segment == Some(VmLayoutSegment::UserStack)
    &&& below.mapping matches Some(flags) && flags.user && flags.write
}

/// Whether thread-local storage may start at `tls_base`.
pub open spec fn tls_ok(tls_base: usize, at: AddressProbe) -> bool {
    tls_base == 0 || (at.segment matches Some(segment) && segment.user())
}

/// Checks where a user task is to start: inside executable user code of the
/// image. `at` is what the address space says of `entry`.
pub fn validate_initial_instruction_pointer(entry: usize, at: AddressProbe) -> (result: Result<
    (),
    ProcessSpawnError,
>)
    ensures
        result == (if entry_ok(entry, at) {
            Ok::<(), ProcessSpawnError>(())
        } else {
            Err::<(), ProcessSpawnError>(ProcessSpawnError::InvalidInstructionPointer)
        }),
{
    if entry == 0 {
        return Err(ProcessSpawnError::InvalidInstructionPointer);
    }
    match at.segment {
        Some(VmLayoutSegment::UserImage) => {},
        _ => {
            return Err(ProcessSpawnError::InvalidInstructionPointer);
        },
    }
    match at.mapping {
        Some(flags) => if flags.user && flags.execute {
            Ok(())
        } else {
            Err(ProcessSpawnError::InvalidInstructionPointer)
        },
        None => Err(ProcessSpawnError::InvalidInstructionPointer),
    }
}

/// The address that decides whether a stack pointer is good: the byte below it.
pub fn stack_probe(stack_pointer: usize) -> (probe: usize)
    ensures
        probe == (if stack_pointer == 0 {
            0
        } else {
            stack_pointer - 1
        }),
{
    stack_pointer.saturating_sub(1)
}

/// Checks the first stack pointer of a user task: aligned, with writable user
/// stack directly below it.
pub fn validate_initial_stack_pointer(stack_pointer: usize, below: AddressProbe) -> (result: Result<
    (),
    ProcessSpawnError,
>)
    ensures
        result == (if stack_ok(stack_pointer, below) {
            Ok::<(), ProcessSpawnError>(())
        } else {
            Err::<(), ProcessSpawnError>(ProcessSpawnError::InvalidStackPointer)
        }),
{
    if stack_pointer == 0 || stack_pointer % 16 != 0 {
        return Err(ProcessSpawnError::InvalidStackPointer);
    }
    match below.segment {
        Some(VmLayoutSegment::UserStack) => {},
        _ => {
            return Err(ProcessSpawnError::InvalidStackPointer);
        },
    }
    match below.mapping {
        Some(flags) => if flags.user && flags.write {
            Ok(())
        } else {
            Err(ProcessSpawnError::InvalidStackPointer)
        },
        None => Err(ProcessSpawnError::InvalidStackPointer),
    }
}

/// Checks the thread-local base of a user task: none, or in a user segment.
pub fn validate_initial_tls_base(tls_base: usize, at: AddressProbe) -> (result: Result<
    (),
    ProcessSpawnError,
>)
    ensures
        result == (if tls_ok(tls_base, at) {
            Ok::<(), ProcessSpawnError>(())
        } else {
            Err::<(), ProcessSpawnError>(ProcessSpawnError::InvalidTlsBase)
        }),
{
    if tls_base == 0 {
        return Ok(());
    }
    match at.segment {
        Some(segment) => if segment.is_user() {
            Ok(())
        } else {
            Err(ProcessSpawnError::InvalidTlsBase)
        },
        None => Err(ProcessSpawnError::InvalidTlsBase),
    }
}

/// First registers of a user task.
#[derive(Debug, Clone, Copy, PartialEq, Eq, Structural)]
pub struct UserStart {
    pub entry: usize,
    pub stack_pointer: usize,
    pub tls_base: usize,
}

/// What the address space says of the three addresses of a start.
#[derive(Debug, Clone, Copy, PartialEq, Eq, Structural)]
pub struct StartProbes {
    pub entry: AddressProbe,
    pub below_stack: AddressProbe,
    pub tls: AddressProbe,
}

/// The first thing that is wrong with a start.
pub open spec fn start_check(start: UserStart, probes: StartProbes) -> Result<
    (),
    ProcessSpawnError,
> {
    if !entry_ok(start.entry, probes.entry) {
        Err(ProcessSpawnError::InvalidInstructionPointer)
    } else if !stack_ok(start.stack_pointer, probes.below_stack) {
        Err(ProcessSpawnError::InvalidStackPointer)
    } else if !tls_ok(start.tls_base, probes.tls) {
        Err(ProcessSpawnError::InvalidTlsBase)
    } else {
        Ok(())
    }
}

/// Checks all three addresses, in this order.
pub fn validate_start(start: UserStart, probes: StartProbes) -> (result: Result<
    (),
    ProcessSpawnError,
>)
    ensures
        result == start_check(start, probes),
{
    match validate_initial_instruction_pointer(start.entry, probes.entry) {
        Err(error) => {
            return Err(error);
        },
        Ok(()) => {},
    }
    match validate_initial_stack_pointer(start.stack_pointer, probes.below_stack) {
        Err(error) => {
            return Err(error);
        },
        Ok(()) => {},
    }
    validate_initial_tls_base(start.tls_base, probes.tls)
}

/// A start that is let through runs executable user code on a writable user
/// stack.
pub proof fn law_checked_start_is_user(start: UserStart, probes: StartProbes)
    requires
        start_check(start, probes) is Ok,
    ensures
        probes.entry.mapping matches Some(code) && code.user && code.execute,
        probes.below_stack.mapping matches Some(stack) && stack.user && stack.write,
        start.stack_pointer % 16 == 0,
        start.tls_base != 0 ==> (probes.tls.segment matches Some(segment) && segment.user()),
{
}

/// System calls that may end a task.
#[derive(Debug, Clone, Copy, PartialEq, Eq, Structural)]
pub enum ExitingCall {
    ProcessExit,
    TaskExit,
    Other,
}

/// What a task does before it enters user code.
#[derive(Debug, Clone, Copy, PartialEq, Eq, Structural)]
pub enum UserEntry {
    Run,
    Exit(TaskExit),
}

/// What a task does after it has left user code.
#[derive(Debug, Clone, Copy, PartialEq, Eq, Structural)]
pub enum UserStep {
    /// Performs the system call.
    Syscall,
    /// Hands the interrupt on and goes back.
    Interrupt(usize),
    /// Asks the address space to resolve the fault at this address.
    ResolveFault { addr: usize, write: bool },
    /// Goes back to user code.
    Continue,
    /// Ends.
    Exit(TaskExit),
}

/// Before user code: a cancelled task ends, and so does one without saved user
/// registers.
pub fn before_user(cancel_requested: bool, has_context: bool) -> (entry: UserEntry)
    ensures
        entry == (if cancel_requested {
            UserEntry::Exit(TaskExit::Cancelled)
        } else if !has_context {
            UserEntry::Exit(TaskExit::Killed)
        } else {
            UserEntry::Run
        }),
{
    if cancel_requested {
        return UserEntry::Exit(TaskExit::Cancelled);
    }
    if !has_context {
        return UserEntry::Exit(TaskExit::Killed);
    }
    UserEntry::Run
}

/// After user code: what the reason asks for. Breakpoints do not reach a task.
pub fn after_user(reason: TrapReason) -> (step: UserStep)
    requires
        !(reason is SoftwareBreakpoint || reason is HardwareBreakpoint),
    ensures
        step == (match reason {
            TrapReason::Syscall => UserStep::Syscall,
            TrapReason::Interrupt(vector) => UserStep::Interrupt(vector),
            TrapReason::PageFault { addr, write } => UserStep::ResolveFault { addr, write },
            _ => UserStep::Exit(TaskExit::Faulted),
        }),
{
    match reason {
        TrapReason::Syscall => UserStep::Syscall,
        TrapReason::Interrupt(vector) => UserStep::Interrupt(vector),
        TrapReason::PageFault { addr, write } => UserStep::ResolveFault { addr, write },
        _ => after_fault(&reason),
    }
}

/// A fault that nobody resolved: the process decides.
pub fn after_fault(reason: &TrapReason) -> (step: UserStep)
    ensures
        step == (if reason is SoftwareBreakpoint || reason is HardwareBreakpoint
            || reason is Interrupt {
            UserStep::Continue
        } else {
            UserStep::Exit(TaskExit::Faulted)
        }),
{
    match handle_fault(reason) {
        ProcessFaultAction::Resume => UserStep::Continue,
        ProcessFaultAction::Terminate => UserStep::Exit(TaskExit::Faulted),
    }
}

/// What came of the attempt to resolve a page fault.
#[derive(Debug, Clone, Copy, PartialEq, Eq, Structural)]
pub enum FaultAttempt {
    /// The page is there now.
    Resumed,
    /// A pager was asked; whether it brought the page.
    Paged(bool),
    /// The fault cannot be resolved, or the attempt failed.
    Failed,
}

/// After the attempt to resolve a page fault.
pub fn after_page_fault(addr: usize, write: bool, attempt: FaultAttempt) -> (step: UserStep)
    ensures
        step == (if attempt == FaultAttempt::Resumed || attempt == FaultAttempt::Paged(true) {
            UserStep::Continue
        } else {
            UserStep::Exit(TaskExit::Faulted)
        }),
{
    match attempt {
        FaultAttempt::Resumed => UserStep::Continue,
        FaultAttempt::Paged(true) => UserStep::Continue,
        _ => after_fault(&TrapReason::PageFault { addr, write }),
    }
}

/// What the user registers get after a system call.
#[derive(Debug, Clone, Copy, PartialEq, Eq, Structural)]
pub enum SyscallReturn {
    /// The task ends.
    Exit(TaskExit),
    /// The task goes on in a service call that was delivered to it.
    Deliver(ServiceDelivery),
    /// The result of the call.
    Result,
}

/// After a system call: a successful exit call ends the task with the first
/// result value; a delivered service call replaces the result.
pub fn after_syscall(
    call: ExitingCall,
    succeeded: bool,
    value: usize,
    delivery: Option<ServiceDelivery>,
) -> (outcome: SyscallReturn)
    ensures
        outcome == (match call {
            ExitingCall::ProcessExit if succeeded => SyscallReturn::Exit(
                TaskExit::ProcessExited(value),
            ),
            ExitingCall::TaskExit if succeeded => SyscallReturn::Exit(
                TaskExit::ThreadExited(value),
            ),
            _ => match delivery {
                Some(delivery) => SyscallReturn::Deliver(delivery),
                None => SyscallReturn::Result,
            },
        }),
{
    match call {
        ExitingCall::ProcessExit => {
            if succeeded {
                return SyscallReturn::Exit(TaskExit::ProcessExited(value));
            }
        },
        ExitingCall::TaskExit => {
            if succeeded {
                return SyscallReturn::Exit(TaskExit::ThreadExited(value));
            }
        },
        ExitingCall::Other => {},
    }
    match delivery {
        Some(delivery) => SyscallReturn::Deliver(delivery),
        None => SyscallReturn::Result,
    }
}

} // verus!
