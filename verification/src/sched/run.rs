//! The life of a task in user code, turn by turn.
//!
//! A turn takes the user registers out of the task, runs user code, serves what
//! user code was left for, and puts the registers back. What is waited for in
//! between is done by the caller, who hands back how it went.

use vstd::prelude::*;

use super::process::tasks::TrapReason;
use super::process::vm::{ProcessPageFault, ProcessUserFaultResolution};
use super::task::{ServiceDelivery, TaskExit};
use super::user::{
    after_page_fault, after_syscall, after_user, before_user, ExitingCall,
    FaultAttempt, SyscallReturn, UserEntry, UserStep,
};

verus! {

/// Where a task is in its turn.
#[derive(Debug, Clone, Copy, PartialEq, Eq, Structural)]
pub enum UserStage {
    /// About to begin a turn.
    Between,
    /// In user code.
    Running,
    /// In a system call.
    Calling(ExitingCall),
    /// While an interrupt is served.
    Interrupted,
    /// While the address space looks at a page fault.
    Resolving { addr: usize, write: bool },
    /// While a pager serves a page fault.
    Paging(ProcessPageFault),
    /// At its end.
    Ended(TaskExit),
}

/// What happens to a task that runs user code.
#[derive(Debug, Clone, Copy, PartialEq, Eq, Structural)]
pub enum UserEvent {
    /// A turn begins.
    Turn { cancel_requested: bool },
    /// User code was left; `call` says which call a system call is.
    Trap { reason: TrapReason, call: ExitingCall },
    /// A system call is over; `delivery` is what is armed for the task.
    Returned { succeeded: bool, value: usize, delivery: Option<ServiceDelivery> },
    /// An interrupt was served, well or not.
    Served,
    /// The address space has looked at a page fault; `None` where it failed.
    Resolved(Option<ProcessUserFaultResolution>),
    /// A pager has brought the page, or not.
    Paged(bool),
}

/// What is to be done for the task.
#[derive(Debug, Clone, Copy, PartialEq, Eq, Structural)]
pub enum UserAction {
    /// Take the registers out and run user code.
    Enter,
    /// Perform the system call.
    Dispatch,
    /// Hand the interrupt to the controller.
    Serve(usize),
    /// Let the address space look at the fault.
    Resolve { addr: usize, write: bool },
    /// Let the pager serve the fault.
    AskPager(ProcessPageFault),
    /// Put the registers back as they are.
    PutBack,
    /// Put the registers back with the result of the system call.
    PutBackResult,
    /// Take the delivery, and put the registers back with it.
    PutBackDelivery(ServiceDelivery),
    /// Drop the registers; the task ends.
    End(TaskExit),
}

/// A task that runs user code.
#[derive(Debug, Clone, Copy, PartialEq, Eq, Structural)]
pub struct UserRun {
    pub stage: UserStage,
    /// Whether the task holds its user registers.
    pub has_context: bool,
}

impl UserRun {
    /// The registers are out from the moment user code runs until they are put
    /// back.
    pub open spec fn wf(self) -> bool {
        self.stage is Between || !self.has_context
    }

    /// Whether the event can happen where the task is.
    pub open spec fn expects(self, event: UserEvent) -> bool {
        match event {
            UserEvent::Turn { .. } => self.stage is Between,
            UserEvent::Trap { reason, .. } => self.stage is Running && !(
            reason is SoftwareBreakpoint || reason is HardwareBreakpoint),
            UserEvent::Returned { .. } => self.stage is Calling,
            UserEvent::Served => self.stage is Interrupted,
            UserEvent::Resolved(_) => self.stage is Resolving,
            UserEvent::Paged(_) => self.stage is Paging,
        }
    }

    pub open spec fn at(stage: UserStage) -> UserRun {
        UserRun { stage, has_context: false }
    }

    /// The registers are back, and a new turn begins.
    pub open spec fn back() -> UserRun {
        UserRun { stage: UserStage::Between, has_context: true }
    }

    pub open spec fn ended(exit: TaskExit) -> (UserRun, UserAction) {
        (Self::at(UserStage::Ended(exit)), UserAction::End(exit))
    }

    /// Where an event takes the task, and what is to be done then.
    pub open spec fn after(self, event: UserEvent) -> (UserRun, UserAction) {
        match event {
            UserEvent::Turn { cancel_requested } => if cancel_requested {
                Self::ended(TaskExit::Cancelled)
            } else if !self.has_context {
                Self::ended(TaskExit::Killed)
            } else {
                (Self::at(UserStage::Running), UserAction::Enter)
            },
            UserEvent::Trap { reason, call } => match reason {
                TrapReason::Syscall => (Self::at(UserStage::Calling(call)), UserAction::Dispatch),
                TrapReason::Interrupt(vector) => (
                    Self::at(UserStage::Interrupted),
                    UserAction::Serve(vector),
                ),
                TrapReason::PageFault { addr, write } => (
                    Self::at(UserStage::Resolving { addr, write }),
                    UserAction::Resolve { addr, write },
                ),
                _ => Self::ended(TaskExit::Faulted),
            },
            UserEvent::Returned { succeeded, value, delivery } => {
                let call = self.stage->Calling_0;
                if call == ExitingCall::ProcessExit && succeeded {
                    Self::ended(TaskExit::ProcessExited(value))
                } else if call == ExitingCall::TaskExit && succeeded {
                    Self::ended(TaskExit::ThreadExited(value))
                } else {
                    match delivery {
                        Some(delivery) => (Self::back(), UserAction::PutBackDelivery(delivery)),
                        None => (Self::back(), UserAction::PutBackResult),
                    }
                }
            },
            UserEvent::Served => (Self::back(), UserAction::PutBack),
            UserEvent::Resolved(resolution) => match resolution {
                Some(ProcessUserFaultResolution::Resume) => (Self::back(), UserAction::PutBack),
                Some(ProcessUserFaultResolution::Block(fault)) => (
                    Self::at(UserStage::Paging(fault)),
                    UserAction::AskPager(fault),
                ),
                _ => Self::ended(TaskExit::Faulted),
            },
            UserEvent::Paged(brought) => if brought {
                (Self::back(), UserAction::PutBack)
            } else {
                Self::ended(TaskExit::Faulted)
            },
        }
    }

    /// A task that has yet to begin its first turn.
    pub fn new(has_context: bool) -> (run: Self)
        ensures
            run == (UserRun { stage: UserStage::Between, has_context }),
            run.wf(),
    {
        UserRun { stage: UserStage::Between, has_context }
    }

    fn go(&mut self, stage: UserStage, has_context: bool)
        ensures
            *final(self) == (UserRun { stage, has_context }),
    {
        self.stage = stage;
        self.has_context = has_context;
    }

    /// Ends the task or puts its registers back, as a fault was served.
    fn on_step(&mut self, step: UserStep) -> (action: UserAction)
        requires
            step is Continue || step is Exit,
        ensures
            (*final(self), action) == (match step {
                UserStep::Exit(exit) => Self::ended(exit),
                _ => (Self::back(), UserAction::PutBack),
            }),
    {
        match step {
            UserStep::Exit(exit) => {
                self.go(UserStage::Ended(exit), false);
                UserAction::End(exit)
            },
            _ => {
                self.go(UserStage::Between, true);
                UserAction::PutBack
            },
        }
    }

    /// Takes an event to the next stage of the turn.
    pub fn run_user(&mut self, event: UserEvent) -> (action: UserAction)
        requires
            old(self).wf(),
            old(self).expects(event),
        ensures
            final(self).wf(),
            (*final(self), action) == old(self).after(event),
    {
        match event {
            UserEvent::Turn { cancel_requested } => {
                match before_user(cancel_requested, self.has_context) {
                    UserEntry::Run => {
                        self.go(UserStage::Running, false);
                        UserAction::Enter
                    },
                    UserEntry::Exit(exit) => self.on_step(UserStep::Exit(exit)),
                }
            },
            UserEvent::Trap { reason, call } => {
                match after_user(reason) {
                    UserStep::Syscall => {
                        self.go(UserStage::Calling(call), false);
                        UserAction::Dispatch
                    },
                    UserStep::Interrupt(vector) => {
                        self.go(UserStage::Interrupted, false);
                        UserAction::Serve(vector)
                    },
                    UserStep::ResolveFault { addr, write } => {
                        self.go(UserStage::Resolving { addr, write }, false);
                        UserAction::Resolve { addr, write }
                    },
                    step => self.on_step(step),
                }
            },
            UserEvent::Returned { succeeded, value, delivery } => {
                let call = match self.stage {
                    UserStage::Calling(call) => call,
                    _ => ExitingCall::Other,
                };
                match after_syscall(call, succeeded, value, delivery) {
                    SyscallReturn::Exit(exit) => self.on_step(UserStep::Exit(exit)),
                    SyscallReturn::Deliver(delivery) => {
                        self.go(UserStage::Between, true);
                        UserAction::PutBackDelivery(delivery)
                    },
                    SyscallReturn::Result => {
                        self.go(UserStage::Between, true);
                        UserAction::PutBackResult
                    },
                }
            },
            UserEvent::Served => self.on_step(UserStep::Continue),
            UserEvent::Resolved(resolution) => {
                let (addr, write) = match self.stage {
                    UserStage::Resolving { addr, write } => (addr, write),
                    _ => (0, false),
                };
                match resolution {
                    Some(ProcessUserFaultResolution::Resume) => self.on_step(
                        after_page_fault(addr, write, FaultAttempt::Resumed),
                    ),
                    Some(ProcessUserFaultResolution::Block(fault)) => {
                        self.go(UserStage::Paging(fault), false);
                        UserAction::AskPager(fault)
                    },
                    _ => self.on_step(after_page_fault(addr, write, FaultAttempt::Failed)),
                }
            },
            UserEvent::Paged(brought) => {
                let (addr, write) = match self.stage {
                    UserStage::Paging(fault) => (fault.addr, fault.write),
                    _ => (0, false),
                };
                self.on_step(after_page_fault(addr, write, FaultAttempt::Paged(brought)))
            },
        }
    }
}

/// A task that goes on after a turn has its registers back, and one that has
/// ended holds none.
pub proof fn law_registers_come_back(run: UserRun, event: UserEvent)
    requires
        run.wf(),
        run.expects(event),
    ensures
        ({
            let next = run.after(event).0;
            &&& next.wf()
            &&& next.stage is Between ==> next.has_context
            &&& next.stage is Ended ==> !next.has_context
        }),
{
}

/// A cancelled task does not enter user code again.
pub proof fn law_cancelled_task_stays_out(run: UserRun)
    requires
        run.expects(UserEvent::Turn { cancel_requested: true }),
    ensures
        run.after(UserEvent::Turn { cancel_requested: true }) == UserRun::ended(
            TaskExit::Cancelled,
        ),
{
}

/// An ended task takes no event any more.
pub proof fn law_ended_task_is_done(run: UserRun, event: UserEvent)
    requires
        run.stage is Ended,
    ensures
        !run.expects(event),
{
}

} // verus!
