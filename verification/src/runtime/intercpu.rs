//! Messages from processor to processor.

use crate::interrupt::IrqError;
use crate::text::{decimal, push_decimal};
use vstd::prelude::*;
use vstd::string::*;

verus! {

/// Errors returned by kernel CPU-to-CPU messaging.
#[derive(Debug, Clone, Copy, PartialEq, Eq, Structural)]
pub enum InterCpuError {
    NotInitialized,
    InvalidCpu(usize),
    MissingMailbox(usize),
    SendClosed,
    ReplyClosed,
    Interrupt(IrqError),
}

/// Name of an interrupt error.
pub open spec fn irq_error_text(error: IrqError) -> Seq<char> {
    match error {
        IrqError::InvalidParameter => "InvalidParameter"@,
        IrqError::NotSupported => "NotSupported"@,
        IrqError::OutOfResources => "OutOfResources"@,
        IrqError::InvalidIrq(irq) => "InvalidIrq("@ + decimal(irq as nat) + ")"@,
        IrqError::WouldBlock => "WouldBlock"@,
        IrqError::Closed => "Closed"@,
        IrqError::DeadlineUnsupported => "DeadlineUnsupported"@,
    }
}

impl InterCpuError {
    pub open spec fn text(self) -> Seq<char> {
        match self {
            InterCpuError::NotInitialized => "inter-CPU runtime is not initialized"@,
            InterCpuError::InvalidCpu(cpu_id) => "invalid CPU id "@ + decimal(cpu_id as nat),
            InterCpuError::MissingMailbox(cpu_id) => "missing mailbox for CPU "@ + decimal(
                cpu_id as nat,
            ),
            InterCpuError::SendClosed => "inter-CPU mailbox sender is closed"@,
            InterCpuError::ReplyClosed => "inter-CPU reply channel is closed"@,
            InterCpuError::Interrupt(error) => "IPI delivery failed: "@ + irq_error_text(error),
        }
    }

    /// Says in words what went wrong.
    pub fn describe(&self) -> (text: String)
        ensures
            text@ == self.text(),
    {
        let mut text = String::new();
        match self {
            InterCpuError::NotInitialized => {
                text.append("inter-CPU runtime is not initialized");
            },
            InterCpuError::InvalidCpu(cpu_id) => {
                text.append("invalid CPU id ");
                push_decimal(&mut text, *cpu_id);
            },
            InterCpuError::MissingMailbox(cpu_id) => {
                text.append("missing mailbox for CPU ");
                push_decimal(&mut text, *cpu_id);
            },
            InterCpuError::SendClosed => {
                text.append("inter-CPU mailbox sender is closed");
            },
            InterCpuError::ReplyClosed => {
                text.append("inter-CPU reply channel is closed");
            },
            InterCpuError::Interrupt(error) => {
                text.append("IPI delivery failed: ");
                match error {
                    IrqError::InvalidParameter => {
                        text.append("InvalidParameter");
                    },
                    IrqError::NotSupported => {
                        text.append("NotSupported");
                    },
                    IrqError::OutOfResources => {
                        text.append("OutOfResources");
                    },
                    IrqError::InvalidIrq(irq) => {
                        text.append("InvalidIrq(");
                        push_decimal(&mut text, *irq);
                        text.append(")");
                    },
                    IrqError::WouldBlock => {
                        text.append("WouldBlock");
                    },
                    IrqError::Closed => {
                        text.append("Closed");
                    },
                    IrqError::DeadlineUnsupported => {
                        text.append("DeadlineUnsupported");
                    },
                }
            },
        }
        assert(text@ =~= self.text());
        text
    }
}

/// Runtime-owned inter-processor mailbox fabric.
#[derive(Debug, Clone, Copy, PartialEq, Eq, Structural)]
pub struct InterCpuRuntime {
    cpu_count: usize,
}

/// Where a job for a processor goes.
#[derive(Debug, Clone, Copy, PartialEq, Eq, Structural)]
pub enum NotifyRoute {
    /// The job runs at once.
    Here,
    /// The job goes into the mailbox of a processor, which is then interrupted.
    Mailbox(usize),
}

impl InterCpuRuntime {
    pub closed spec fn cpus(&self) -> usize {
        self.cpu_count
    }

    /// Initialize all per-CPU mailbox endpoints, once. `areas` is the number of
    /// processors that have a per-CPU area.
    pub fn initialize(slot: &mut Option<InterCpuRuntime>, cpu_count: usize, areas: usize) -> (result:
        Result<(), InterCpuError>)
        ensures
            if cpu_count > areas {
                &&& result == Err::<(), InterCpuError>(InterCpuError::InvalidCpu(areas))
                &&& *final(slot) == *old(slot)
            } else if *old(slot) is Some {
                &&& result == Err::<(), InterCpuError>(InterCpuError::NotInitialized)
                &&& *final(slot) == *old(slot)
            } else {
                &&& result == Ok::<(), InterCpuError>(())
                &&& *final(slot) matches Some(runtime)
                &&& runtime.cpus() == cpu_count
            },
    {
        let runtime = match Self::build(cpu_count, areas) {
            Ok(runtime) => runtime,
            Err(error) => {
                return Err(error);
            },
        };
        if slot.is_some() {
            return Err(InterCpuError::NotInitialized);
        }
        *slot = Some(runtime);
        Ok(())
    }

    /// Return the initialized inter-CPU runtime.
    pub fn get(slot: &Option<InterCpuRuntime>) -> (result: Result<InterCpuRuntime, InterCpuError>)
        ensures
            result == (match *slot {
                Some(runtime) => Ok::<InterCpuRuntime, InterCpuError>(runtime),
                None => Err::<InterCpuRuntime, InterCpuError>(InterCpuError::NotInitialized),
            }),
    {
        match slot {
            Some(runtime) => Ok(*runtime),
            None => Err(InterCpuError::NotInitialized),
        }
    }

    /// The mailboxes are set up in the order of the processors; the first one
    /// without an area of its own ends the attempt.
    fn build(cpu_count: usize, areas: usize) -> (result: Result<Self, InterCpuError>)
        ensures
            match result {
                Ok(runtime) => cpu_count <= areas && runtime.cpus() == cpu_count,
                Err(error) => cpu_count > areas && error == InterCpuError::InvalidCpu(areas),
            },
    {
        if cpu_count > areas {
            return Err(InterCpuError::InvalidCpu(areas));
        }
        Ok(InterCpuRuntime { cpu_count })
    }

    /// Return the initialized CPU count.
    pub fn cpu_count(&self) -> (count: usize)
        ensures
            count == self.cpus(),
    {
        self.cpu_count
    }

    /// What a request to run a job on a processor leads to.
    pub open spec fn route(self, current: usize, cpu_id: usize, mailbox: bool) -> Result<
        NotifyRoute,
        InterCpuError,
    > {
        if cpu_id == current {
            Ok(NotifyRoute::Here)
        } else if cpu_id >= self.cpus() {
            Err(InterCpuError::InvalidCpu(cpu_id))
        } else if !mailbox {
            Err(InterCpuError::MissingMailbox(cpu_id))
        } else {
            Ok(NotifyRoute::Mailbox(cpu_id))
        }
    }

    /// Decides where a job for a processor goes; `mailbox` says whether that
    /// processor has one.
    pub fn notify(&self, current: usize, cpu_id: usize, mailbox: bool) -> (result: Result<
        NotifyRoute,
        InterCpuError,
    >)
        ensures
            result == self.route(current, cpu_id, mailbox),
    {
        if cpu_id == current {
            return Ok(NotifyRoute::Here);
        }
        if cpu_id >= self.cpu_count {
            return Err(InterCpuError::InvalidCpu(cpu_id));
        }
        if !mailbox {
            return Err(InterCpuError::MissingMailbox(cpu_id));
        }
        Ok(NotifyRoute::Mailbox(cpu_id))
    }

    /// Goes on after a job was to be put into the mailbox of a processor: only
    /// then is the processor interrupted.
    pub fn after_send(cpu_id: usize, sent: bool) -> (step: SendStep)
        ensures
            step == (if sent {
                SendStep::Interrupt(cpu_id)
            } else {
                SendStep::Done(Err(InterCpuError::SendClosed))
            }),
    {
        if sent {
            SendStep::Interrupt(cpu_id)
        } else {
            SendStep::Done(Err(InterCpuError::SendClosed))
        }
    }

    /// How a job that was put into a mailbox ends for its sender, once the
    /// processor was interrupted.
    pub fn after_interrupt(ipi: Result<(), IrqError>) -> (result: Result<(), InterCpuError>)
        ensures
            result == (match ipi {
                Ok(_) => Ok::<(), InterCpuError>(()),
                Err(error) => Err::<(), InterCpuError>(InterCpuError::Interrupt(error)),
            }),
    {
        match ipi {
            Ok(()) => Ok(()),
            Err(error) => Err(InterCpuError::Interrupt(error)),
        }
    }

    /// Goes on with a call of another processor after its job was to be sent: only
    /// then is there a reply to wait for.
    pub fn after_call(sent: Result<(), InterCpuError>) -> (step: CallStep)
        ensures
            step == (match sent {
                Ok(_) => CallStep::AwaitReply,
                Err(error) => CallStep::Done(Err(error)),
            }),
    {
        match sent {
            Ok(()) => CallStep::AwaitReply,
            Err(error) => CallStep::Done(Err(error)),
        }
    }

    /// How a call of another processor ends for the caller that waited for the
    /// reply.
    pub fn after_reply(replied: bool) -> (result: Result<(), InterCpuError>)
        ensures
            result == (if replied {
                Ok::<(), InterCpuError>(())
            } else {
                Err::<(), InterCpuError>(InterCpuError::ReplyClosed)
            }),
    {
        if replied {
            Ok(())
        } else {
            Err(InterCpuError::ReplyClosed)
        }
    }
}

/// What follows putting a job into a mailbox.
#[derive(Debug, Clone, Copy, PartialEq)]
pub enum SendStep {
    Interrupt(usize),
    Done(Result<(), InterCpuError>),
}

/// What follows sending the job of a call.
#[derive(Debug, Clone, Copy, PartialEq)]
pub enum CallStep {
    AwaitReply,
    Done(Result<(), InterCpuError>),
}

/// No processor sends itself a message, and none is sent past the last one.
pub proof fn law_messages_leave_for_other_processors(
    runtime: InterCpuRuntime,
    current: usize,
    cpu_id: usize,
    mailbox: bool,
)
    requires
        runtime.route(current, cpu_id, mailbox) matches Ok(NotifyRoute::Mailbox(_)),
    ensures
        cpu_id != current,
        cpu_id < runtime.cpus(),
        runtime.route(current, cpu_id, mailbox) == Ok::<NotifyRoute, InterCpuError>(
            NotifyRoute::Mailbox(cpu_id),
        ),
{
}

} // verus!
