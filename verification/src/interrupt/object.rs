//! Objects through which interrupt lines and sessions are used.

use super::IrqError;
use crate::ipc::cap::{caps_cover, covers};
use crate::ipc::frame::ReplyValues;
use crate::object::{Capability, Handle, HandleTable, ObjectError, has_free_slot, lowest_free};
use crate::text::{decimal, lemma_decimal, push_decimal};
use vstd::prelude::*;

verus! {

/// Reply frame of an interrupt invocation.
#[derive(Debug, Clone, Copy, PartialEq, Eq, Structural)]
pub enum IrqReply {
    Done(ReplyValues),
    Failed(IrqError),
    Object(ObjectError),
}

/// Error codes of the interrupt interface.
#[derive(Debug, Clone, Copy, PartialEq, Eq, Structural)]
pub enum IrqErrorCode {
    InvalidIrq,
    InvalidParameter,
    OutOfResources,
    NotSupported,
    WouldBlock,
    Closed,
    DeadlineUnsupported,
}

/// Numbers of the system-call interface that interrupt invocations use.
#[derive(Debug, Clone, Copy, PartialEq, Eq, Structural)]
pub struct IrqAbi {
    pub controller_query: u32,
    pub controller_topology: u32,
    pub controller_features: u32,
    pub line_query: u32,
    pub line_open: u32,
    pub line_route: u32,
    pub session_query: u32,
    pub session_enable: u32,
    pub session_wait: u32,
    pub session_ack: u32,
    /// Every flag with which a session can be opened.
    pub open_flags: usize,
    /// The flag of a session that shares its line.
    pub open_shared: usize,
}

/// The rights on a session object that whoever opened the session gets.
pub open spec fn rights_of_session(abi: IrqAbi) -> (Capability, u32) {
    (
        Capability {
            read: true,
            write: true,
            execute: true,
            agent: false,
            admin: false,
            send: true,
        },
        abi.session_query | abi.session_wait | abi.session_ack,
    )
}

/// The rights with which the object of a new session is made: to send it on,
/// read, write and execute, and to ask for its state, wait and acknowledge.
pub fn session_rights(abi: &IrqAbi) -> (rights: (Capability, u32))
    ensures
        rights == rights_of_session(*abi),
{
    (
        Capability {
            read: true,
            write: true,
            execute: true,
            agent: false,
            admin: false,
            send: true,
        },
        abi.session_query | abi.session_wait | abi.session_ack,
    )
}

/// The handle to a new session that its opener gets, if the object was made.
/// `owner` is the owner handle of the object.
pub open spec fn session_made(abi: IrqAbi, owner: Result<Handle, ObjectError>) -> Result<
    Handle,
    ObjectError,
> {
    match owner {
        Err(error) => Err(error),
        Ok(owner) => owner.derived(rights_of_session(abi).0, rights_of_session(abi).1),
    }
}

pub open spec fn sessions_made(abi: IrqAbi, owners: Seq<Result<Handle, ObjectError>>) -> Seq<
    Result<Handle, ObjectError>,
> {
    Seq::new(owners.len(), |i: int| session_made(abi, owners[i]))
}

/// Makes the handle to a new session.
pub fn make_session(abi: &IrqAbi, owner: Result<Handle, ObjectError>) -> (made: Result<
    Handle,
    ObjectError,
>)
    ensures
        made == session_made(*abi, owner),
{
    match owner {
        Err(error) => Err(error),
        Ok(owner) => {
            let (capabilities, interface_caps) = session_rights(abi);
            owner.derive_handle(capabilities, interface_caps)
        },
    }
}

/// Makes the handles to new sessions.
pub fn make_sessions(abi: &IrqAbi, owners: &Vec<Result<Handle, ObjectError>>) -> (made: Vec<
    Result<Handle, ObjectError>,
>)
    ensures
        made@ == sessions_made(*abi, owners@),
{
    let mut made: Vec<Result<Handle, ObjectError>> = Vec::new();
    let mut i: usize = 0;
    while i < owners.len()
        invariant
            i <= owners@.len(),
            made@ == sessions_made(*abi, owners@).take(i as int),
        decreases owners@.len() - i,
    {
        made.push(make_session(abi, owners[i]));
        i = i + 1;
        assert(made@ =~= sessions_made(*abi, owners@).take(i as int));
    }
    assert(sessions_made(*abi, owners@).take(i as int) =~= sessions_made(*abi, owners@));
    made
}

/// What an interrupt controller says of itself.
#[derive(Debug, Clone, Copy, PartialEq, Eq, Structural)]
pub struct InterruptControllerInfo {
    pub line_count: usize,
    pub local_irq_base: usize,
    pub cpu_count: usize,
    pub feature_bits: usize,
}

/// State of an interrupt line.
#[derive(Debug, Clone, Copy, PartialEq, Eq, Structural)]
pub struct IrqLineState {
    pub irq: usize,
    pub flags: usize,
    pub session_count: usize,
    pub enabled_session_count: usize,
    pub current_epoch: u64,
}

/// State of an interrupt session.
#[derive(Debug, Clone, Copy, PartialEq, Eq, Structural)]
pub struct IrqSessionState {
    pub irq: usize,
    pub session_id: usize,
    pub flags: usize,
    pub enabled: bool,
    pub closed: bool,
    pub inflight_epoch: Option<u64>,
    pub pending_count: usize,
}

/// One delivery to a session.
#[derive(Debug, Clone, Copy, PartialEq, Eq, Structural)]
pub struct IrqDelivery {
    pub epoch: u64,
    pub irq: usize,
    pub pending_count: usize,
    pub flags: usize,
}

/// Methods of controller objects.
#[derive(Debug, Clone, Copy, PartialEq, Eq, Structural)]
pub enum IrqControllerMethod {
    QueryInfo,
    QueryTopology,
    QueryFeatures,
}

/// Methods of line objects.
#[derive(Debug, Clone, Copy, PartialEq, Eq, Structural)]
pub enum IrqLineMethod {
    QueryState,
    OpenSession,
    SetDestination,
}

/// Methods of session objects.
#[derive(Debug, Clone, Copy, PartialEq, Eq, Structural)]
pub enum IrqSessionMethod {
    QueryState,
    SetEnabled,
    Close,
}

/// Five words, the last ones zero.
pub open spec fn words(v0: usize, v1: usize, v2: usize) -> IrqReply {
    IrqReply::Done(ReplyValues { v0, v1, v2, v3: 0, v4: 0 })
}

/// Packs replies of interrupt invocations.
pub struct IrqSyscallCodec;

impl IrqSyscallCodec {
    /// A reply with values.
    pub fn ok(values: ReplyValues) -> (reply: IrqReply)
        ensures
            reply == IrqReply::Done(values),
    {
        IrqReply::Done(values)
    }

    /// What a controller is, in words.
    pub fn pack_controller_info(info: InterruptControllerInfo) -> (reply: IrqReply)
        ensures
            reply == words(info.line_count, info.local_irq_base, info.cpu_count),
    {
        Self::ok(
            ReplyValues {
                v0: info.line_count,
                v1: info.local_irq_base,
                v2: info.cpu_count,
                v3: 0,
                v4: 0,
            },
        )
    }

    /// Number of processors of a controller, in words.
    pub fn pack_controller_topology(info: InterruptControllerInfo) -> (reply: IrqReply)
        ensures
            reply == words(info.cpu_count, 0, 0),
    {
        Self::ok(ReplyValues { v0: info.cpu_count, v1: 0, v2: 0, v3: 0, v4: 0 })
    }

    /// Features of a controller, in words.
    pub fn pack_controller_features(info: InterruptControllerInfo) -> (reply: IrqReply)
        ensures
            reply == words(info.feature_bits, 0, 0),
    {
        Self::ok(ReplyValues { v0: info.feature_bits, v1: 0, v2: 0, v3: 0, v4: 0 })
    }

    pub open spec fn line_words(state: IrqLineState) -> ReplyValues {
        ReplyValues {
            v0: state.irq,
            v1: state.flags,
            v2: state.session_count,
            v3: state.enabled_session_count,
            v4: state.current_epoch as usize,
        }
    }

    /// State of a line, in words.
    pub fn pack_line_state(state: IrqLineState) -> (reply: IrqReply)
        ensures
            reply == IrqReply::Done(Self::line_words(state)),
    {
        Self::ok(
            ReplyValues {
                v0: state.irq,
                v1: state.flags,
                v2: state.session_count,
                v3: state.enabled_session_count,
                v4: state.current_epoch as usize,
            },
        )
    }

    /// Words of a session: the third holds one bit each for a session that is
    /// enabled, closed, or has a delivery that is not acknowledged.
    pub open spec fn session_words(state: IrqSessionState) -> ReplyValues {
        ReplyValues {
            v0: state.irq,
            v1: state.session_id,
            v2: state.flags,
            v3: ((if state.enabled {
                1int
            } else {
                0
            }) + (if state.closed {
                2int
            } else {
                0
            }) + (if state.inflight_epoch is Some {
                4int
            } else {
                0
            })) as usize,
            v4: state.pending_count,
        }
    }

    /// State of a session, in words.
    pub fn pack_session_state(state: IrqSessionState) -> (reply: IrqReply)
        ensures
            reply == IrqReply::Done(Self::session_words(state)),
    {
        let mut state_bits: usize = 0;
        if state.enabled {
            state_bits = state_bits + 1;
        }
        if state.closed {
            state_bits = state_bits + 2;
        }
        if state.inflight_epoch.is_some() {
            state_bits = state_bits + 4;
        }
        Self::ok(
            ReplyValues {
                v0: state.irq,
                v1: state.session_id,
                v2: state.flags,
                v3: state_bits,
                v4: state.pending_count,
            },
        )
    }

    /// The reply to a wait that was answered.
    pub fn ok_wait(delivery: IrqDelivery) -> (reply: IrqReply)
        ensures
            reply == IrqReply::Done(
                ReplyValues {
                    v0: delivery.epoch as usize,
                    v1: delivery.irq,
                    v2: delivery.pending_count,
                    v3: delivery.flags,
                    v4: 0,
                },
            ),
    {
        Self::ok(
            ReplyValues {
                v0: delivery.epoch as usize,
                v1: delivery.irq,
                v2: delivery.pending_count,
                v3: delivery.flags,
                v4: 0,
            },
        )
    }

    /// The reply to an acknowledgement.
    pub fn ok_ack(pending_count: usize, epoch: u64) -> (reply: IrqReply)
        ensures
            reply == words(pending_count, epoch as usize, 0),
    {
        Self::ok(ReplyValues { v0: pending_count, v1: epoch as usize, v2: 0, v3: 0, v4: 0 })
    }

    /// The reply to a request that an object refused.
    pub fn object_error(err: ObjectError) -> (reply: IrqReply)
        ensures
            reply == IrqReply::Object(err),
    {
        IrqReply::Object(err)
    }

    /// The reply to a request that the controller refused.
    pub fn underlying_error(err: IrqError) -> (reply: IrqReply)
        ensures
            reply == IrqReply::Failed(err),
    {
        IrqReply::Failed(err)
    }

    pub open spec fn code_of(err: IrqError) -> (IrqErrorCode, usize) {
        match err {
            IrqError::InvalidIrq(irq) => (IrqErrorCode::InvalidIrq, irq),
            IrqError::InvalidParameter => (IrqErrorCode::InvalidParameter, 0),
            IrqError::OutOfResources => (IrqErrorCode::OutOfResources, 0),
            IrqError::NotSupported => (IrqErrorCode::NotSupported, 0),
            IrqError::WouldBlock => (IrqErrorCode::WouldBlock, 0),
            IrqError::Closed => (IrqErrorCode::Closed, 0),
            IrqError::DeadlineUnsupported => (IrqErrorCode::DeadlineUnsupported, 0),
        }
    }

    /// Code and detail word of an error.
    pub fn map_underlying_error(err: IrqError) -> (code: (IrqErrorCode, usize))
        ensures
            code == Self::code_of(err),
    {
        match err {
            IrqError::InvalidIrq(irq) => (IrqErrorCode::InvalidIrq, irq),
            IrqError::InvalidParameter => (IrqErrorCode::InvalidParameter, 0),
            IrqError::OutOfResources => (IrqErrorCode::OutOfResources, 0),
            IrqError::NotSupported => (IrqErrorCode::NotSupported, 0),
            IrqError::WouldBlock => (IrqErrorCode::WouldBlock, 0),
            IrqError::Closed => (IrqErrorCode::Closed, 0),
            IrqError::DeadlineUnsupported => (IrqErrorCode::DeadlineUnsupported, 0),
        }
    }
}

/// Code and detail word tell all errors apart.
pub proof fn law_error_codes_are_distinct(a: IrqError, b: IrqError)
    requires
        IrqSyscallCodec::code_of(a) == IrqSyscallCodec::code_of(b),
    ensures
        a == b,
{
}

/// Control-plane guard used for modes that one IRQ object does not expose.
pub struct UnsupportedGuard;

impl UnsupportedGuard {
    /// Refuses every method.
    pub fn dispatch(&self) -> (result: Result<IrqReply, ObjectError>)
        ensures
            result == Err::<IrqReply, ObjectError>(ObjectError::InsufficientCapabilities),
    {
        Err(ObjectError::InsufficientCapabilities)
    }
}

/// What a failure to publish a line counts as in the object system.
pub open spec fn object_error_of(err: IrqError) -> ObjectError {
    match err {
        IrqError::OutOfResources => ObjectError::ObjectDestroyed,
        IrqError::Closed => ObjectError::ObjectDestroyed,
        _ => ObjectError::InvalidArgument,
    }
}

/// What a refusal of the controller is to an object.
pub fn map_object_error(err: IrqError) -> (error: ObjectError)
    ensures
        error == object_error_of(err),
{
    match err {
        IrqError::InvalidIrq(_) => ObjectError::InvalidArgument,
        IrqError::InvalidParameter => ObjectError::InvalidArgument,
        IrqError::NotSupported => ObjectError::InvalidArgument,
        IrqError::WouldBlock => ObjectError::InvalidArgument,
        IrqError::DeadlineUnsupported => ObjectError::InvalidArgument,
        IrqError::OutOfResources => ObjectError::ObjectDestroyed,
        IrqError::Closed => ObjectError::ObjectDestroyed,
    }
}

/// Name of a line under `/Resource/IRQ`.
pub fn irq_name(irq: usize) -> (name: String)
    ensures
        name@ == decimal(irq as nat),
{
    let mut name = String::new();
    push_decimal(&mut name, irq);
    assert(name@ =~= decimal(irq as nat));
    name
}

/// Distinct lines have distinct names.
pub proof fn law_irq_names_are_distinct(a: usize, b: usize)
    requires
        decimal(a as nat) == decimal(b as nat),
    ensures
        a == b,
{
    lemma_decimal(a as nat, b as nat);
}

/// The numbers below `count` that are lines, in order.
pub open spec fn lines_below(valid: Seq<bool>, count: int) -> Seq<usize>
    decreases count,
{
    if count <= 0 {
        Seq::empty()
    } else if valid[count - 1] {
        lines_below(valid, count - 1).push((count - 1) as usize)
    } else {
        lines_below(valid, count - 1)
    }
}

/// The first number from `from` on that is a line, or how many numbers there are.
pub open spec fn line_from(valid: Seq<bool>, from: int) -> int
    decreases valid.len() - from,
{
    if from >= valid.len() {
        valid.len() as int
    } else if valid[from] {
        from
    } else {
        line_from(valid, from + 1)
    }
}

proof fn lemma_line_from(valid: Seq<bool>, from: int)
    requires
        0 <= from <= valid.len(),
    ensures
        from <= line_from(valid, from) <= valid.len(),
        line_from(valid, from) < valid.len() ==> valid[line_from(valid, from)],
        lines_below(valid, line_from(valid, from)) == lines_below(valid, from),
    decreases valid.len() - from,
{
    if from < valid.len() && !valid[from] {
        lemma_line_from(valid, from + 1);
    }
}

/// Step of publishing a controller and its lines.
#[derive(Debug, Clone, Copy, PartialEq)]
pub enum PublishStep {
    RegisterDriver,
    /// Ask the controller for a line.
    FindLine(usize),
    /// Register the line that was found.
    RegisterLine(usize),
    Done(Result<Handle, ObjectError>),
}

/// How a step of publishing ended.
#[derive(Debug, Clone, Copy, PartialEq)]
pub enum PublishEvent {
    Driver(Result<Handle, ObjectError>),
    Line(Result<(), IrqError>),
    LineRegistered(Result<(), ObjectError>),
}

/// Published wrapper around a machine interrupt controller.
pub struct PublishedInterruptController {
    /// Which numbers are lines.
    pub valid: Vec<bool>,
    pub step: PublishStep,
    /// Owner handle of the controller, once it is registered.
    pub device: Option<Handle>,
    /// The lines that have been registered. They stay so where a later one is
    /// refused.
    pub registered: Vec<usize>,
}

impl PublishedInterruptController {
    pub open spec fn wf(&self) -> bool {
        match self.step {
            PublishStep::RegisterDriver => self.device is None && self.registered@ == Seq::<
                usize,
            >::empty(),
            PublishStep::FindLine(irq) => self.stands_at(irq),
            PublishStep::RegisterLine(irq) => self.stands_at(irq),
            PublishStep::Done(Ok(handle)) => {
                &&& self.device == Some(handle)
                &&& self.registered@ == lines_below(self.valid@, self.valid@.len() as int)
            },
            PublishStep::Done(Err(_)) => exists|irq: int|
                0 <= irq <= self.valid@.len() && self.registered@ == #[trigger] lines_below(
                    self.valid@,
                    irq,
                ),
        }
    }

    /// Whether it is the turn of a line, and those before it are registered.
    pub open spec fn stands_at(&self, irq: usize) -> bool {
        &&& irq < self.valid@.len()
        &&& self.valid@[irq as int]
        &&& self.device is Some
        &&& self.registered@ == lines_below(self.valid@, irq as int)
    }

    pub fn new(valid: Vec<bool>) -> (publication: Self)
        ensures
            publication.wf(),
            publication.valid == valid,
            publication.step == PublishStep::RegisterDriver,
    {
        PublishedInterruptController {
            valid,
            step: PublishStep::RegisterDriver,
            device: None,
            registered: Vec::new(),
        }
    }

    /// The step for the next line from a number on; without one everything is
    /// published.
    pub open spec fn turn(&self, from: int, device: Handle) -> PublishStep {
        let irq = line_from(self.valid@, from);
        if irq < self.valid@.len() {
            PublishStep::FindLine(irq as usize)
        } else {
            PublishStep::Done(Ok(device))
        }
    }

    fn next_line(&self, from: usize, device: Handle) -> (step: PublishStep)
        requires
            from <= self.valid@.len(),
        ensures
            step == self.turn(from as int, device),
    {
        let mut irq: usize = from;
        while irq < self.valid.len()
            invariant
                irq <= self.valid@.len(),
                line_from(self.valid@, irq as int) == line_from(self.valid@, from as int),
            decreases self.valid@.len() - irq,
        {
            if self.valid[irq] {
                return PublishStep::FindLine(irq);
            }
            irq = irq + 1;
        }
        PublishStep::Done(Ok(device))
    }

    /// What a step leads to. A line that the controller does not hand out, or
    /// that cannot be registered, ends the publication.
    pub open spec fn after(&self, event: PublishEvent) -> PublishStep {
        match (self.step, event) {
            (PublishStep::RegisterDriver, PublishEvent::Driver(made)) => match made {
                Ok(device) => self.turn(0, device),
                Err(error) => PublishStep::Done(Err(error)),
            },
            (PublishStep::FindLine(irq), PublishEvent::Line(found)) => match found {
                Ok(_) => PublishStep::RegisterLine(irq),
                Err(error) => PublishStep::Done(Err(object_error_of(error))),
            },
            (PublishStep::RegisterLine(irq), PublishEvent::LineRegistered(made)) => match made {
                Ok(_) => self.turn(irq + 1, self.device->Some_0),
                Err(error) => PublishStep::Done(Err(error)),
            },
            _ => self.step,
        }
    }

    /// Goes on after a step of publishing was taken: the controller first, then
    /// its lines in order.
    pub fn publish(&mut self, event: PublishEvent)
        requires
            old(self).wf(),
        ensures
            final(self).wf(),
            final(self).valid == old(self).valid,
            final(self).step == old(self).after(event),
            final(self).device == (match (old(self).step, event) {
                (PublishStep::RegisterDriver, PublishEvent::Driver(Ok(device))) => Some(device),
                _ => old(self).device,
            }),
            final(self).registered@ == (match (old(self).step, event) {
                (PublishStep::RegisterLine(irq), PublishEvent::LineRegistered(Ok(_))) => old(self).registered@.push(irq),
                _ => old(self).registered@,
            }),
    {
        assert(self.valid.len() == self.valid@.len());
        match (self.step, event) {
            (PublishStep::RegisterDriver, PublishEvent::Driver(made)) => match made {
                Ok(device) => {
                    self.device = Some(device);
                    self.step = self.next_line(0, device);
                    proof {
                        lemma_line_from(self.valid@, 0);
                    }
                },
                Err(error) => {
                    self.step = PublishStep::Done(Err(error));
                    assert(self.registered@ == lines_below(self.valid@, 0));
                },
            },
            (PublishStep::FindLine(irq), PublishEvent::Line(found)) => match found {
                Ok(()) => {
                    self.step = PublishStep::RegisterLine(irq);
                },
                Err(error) => {
                    self.step = PublishStep::Done(Err(map_object_error(error)));
                    assert(self.registered@ == lines_below(self.valid@, irq as int));
                },
            },
            (PublishStep::RegisterLine(irq), PublishEvent::LineRegistered(made)) => match made {
                Ok(()) => {
                    assert(irq < self.valid.len());
                    self.registered.push(irq);
                    match self.device {
                        Some(device) => {
                            self.step = self.next_line(irq + 1, device);
                        },
                        None => {},
                    }
                    proof {
                        lemma_line_from(self.valid@, irq + 1);
                        assert(self.registered@ =~= lines_below(self.valid@, irq + 1));
                    }
                },
                Err(error) => {
                    self.step = PublishStep::Done(Err(error));
                    assert(self.registered@ == lines_below(self.valid@, irq as int));
                },
            },
            _ => {},
        }
    }
}

/// Read-side guard for one interrupt controller device object. The admin side
/// answers the same methods.
pub struct InterruptControllerReadGuard {
    pub interface_caps: u32,
}

impl InterruptControllerReadGuard {
    pub open spec fn answer(
        self,
        abi: IrqAbi,
        info: InterruptControllerInfo,
        method: Option<IrqControllerMethod>,
    ) -> Result<IrqReply, ObjectError> {
        match method {
            None => Ok(IrqReply::Failed(IrqError::InvalidParameter)),
            Some(method) => {
                let (needed, reply) = match method {
                    IrqControllerMethod::QueryInfo => (
                        abi.controller_query,
                        words(info.line_count, info.local_irq_base, info.cpu_count),
                    ),
                    IrqControllerMethod::QueryTopology => (
                        abi.controller_topology,
                        words(info.cpu_count, 0, 0),
                    ),
                    IrqControllerMethod::QueryFeatures => (
                        abi.controller_features,
                        words(info.feature_bits, 0, 0),
                    ),
                };
                if covers(self.interface_caps, needed) {
                    Ok(reply)
                } else {
                    Err(ObjectError::InsufficientCapabilities)
                }
            },
        }
    }

    /// Answers a query; `None` is a number that names no method.
    pub fn dispatch(
        &self,
        abi: &IrqAbi,
        info: InterruptControllerInfo,
        method: Option<IrqControllerMethod>,
    ) -> (result: Result<IrqReply, ObjectError>)
        ensures
            result == self.answer(*abi, info, method),
    {
        match method {
            None => Ok(IrqSyscallCodec::underlying_error(IrqError::InvalidParameter)),
            Some(IrqControllerMethod::QueryInfo) => {
                if !caps_cover(self.interface_caps, abi.controller_query) {
                    return Err(ObjectError::InsufficientCapabilities);
                }
                Ok(IrqSyscallCodec::pack_controller_info(info))
            },
            Some(IrqControllerMethod::QueryTopology) => {
                if !caps_cover(self.interface_caps, abi.controller_topology) {
                    return Err(ObjectError::InsufficientCapabilities);
                }
                Ok(IrqSyscallCodec::pack_controller_topology(info))
            },
            Some(IrqControllerMethod::QueryFeatures) => {
                if !caps_cover(self.interface_caps, abi.controller_features) {
                    return Err(ObjectError::InsufficientCapabilities);
                }
                Ok(IrqSyscallCodec::pack_controller_features(info))
            },
        }
    }
}

/// What an invocation of a line comes to.
#[derive(Debug, Clone, Copy, PartialEq, Eq)]
pub enum IrqLineAction {
    Finished(Result<IrqReply, ObjectError>),
    /// A session has to be opened with these flags.
    Open(usize),
    /// The line has to be routed to this processor.
    Route(usize),
}

pub open spec fn refused_line() -> IrqLineAction {
    IrqLineAction::Finished(Err(ObjectError::InsufficientCapabilities))
}

pub open spec fn bad_parameter() -> IrqLineAction {
    IrqLineAction::Finished(Ok(IrqReply::Failed(IrqError::InvalidParameter)))
}

/// What a query of a line is answered.
pub open spec fn line_answer(
    caps: u32,
    abi: IrqAbi,
    state: Result<IrqLineState, IrqError>,
) -> IrqLineAction {
    if !covers(caps, abi.line_query) {
        refused_line()
    } else {
        match state {
            Ok(state) => IrqLineAction::Finished(
                Ok(IrqReply::Done(IrqSyscallCodec::line_words(state))),
            ),
            Err(error) => IrqLineAction::Finished(Ok(IrqReply::Failed(error))),
        }
    }
}

/// What a request to open a session leads to. No flag at all stands for a
/// shared session.
pub open spec fn open_action(caps: u32, abi: IrqAbi, flags: usize) -> IrqLineAction {
    if !covers(caps, abi.line_open) {
        refused_line()
    } else if flags & abi.open_flags != flags {
        bad_parameter()
    } else if flags == 0 {
        IrqLineAction::Open(abi.open_shared)
    } else {
        IrqLineAction::Open(flags)
    }
}

fn answer_line(caps: u32, abi: &IrqAbi, state: Result<IrqLineState, IrqError>) -> (action:
    IrqLineAction)
    ensures
        action == line_answer(caps, *abi, state),
{
    if !caps_cover(caps, abi.line_query) {
        return IrqLineAction::Finished(Err(ObjectError::InsufficientCapabilities));
    }
    match state {
        Ok(state) => IrqLineAction::Finished(Ok(IrqSyscallCodec::pack_line_state(state))),
        Err(error) => IrqLineAction::Finished(Ok(IrqSyscallCodec::underlying_error(error))),
    }
}

/// Read-side guard for one IRQ line resource object.
pub struct IrqLineReadGuard {
    pub interface_caps: u32,
}

impl IrqLineReadGuard {
    /// Answers a query; `None` is a number that names no method.
    pub fn dispatch(
        &self,
        abi: &IrqAbi,
        method: Option<IrqLineMethod>,
        state: Result<IrqLineState, IrqError>,
    ) -> (action: IrqLineAction)
        ensures
            action == (match method {
                None => bad_parameter(),
                Some(IrqLineMethod::QueryState) => line_answer(self.interface_caps, *abi, state),
                Some(_) => refused_line(),
            }),
    {
        match method {
            None => IrqLineAction::Finished(
                Ok(IrqSyscallCodec::underlying_error(IrqError::InvalidParameter)),
            ),
            Some(IrqLineMethod::QueryState) => answer_line(self.interface_caps, abi, state),
            Some(_) => IrqLineAction::Finished(Err(ObjectError::InsufficientCapabilities)),
        }
    }
}

/// Agent-side guard used to open shared IRQ sessions on one line.
pub struct IrqLineAgentGuard {
    pub interface_caps: u32,
}

impl IrqLineAgentGuard {
    /// Decides on a request; `None` is a number that names no method.
    pub fn dispatch(&self, abi: &IrqAbi, method: Option<IrqLineMethod>, flags: usize) -> (action:
        IrqLineAction)
        ensures
            action == (match method {
                None => bad_parameter(),
                Some(IrqLineMethod::OpenSession) => open_action(self.interface_caps, *abi, flags),
                Some(_) => refused_line(),
            }),
    {
        match method {
            None => IrqLineAction::Finished(
                Ok(IrqSyscallCodec::underlying_error(IrqError::InvalidParameter)),
            ),
            Some(IrqLineMethod::OpenSession) => {
                if !caps_cover(self.interface_caps, abi.line_open) {
                    return IrqLineAction::Finished(Err(ObjectError::InsufficientCapabilities));
                }
                if flags & abi.open_flags != flags {
                    return IrqLineAction::Finished(
                        Ok(IrqSyscallCodec::underlying_error(IrqError::InvalidParameter)),
                    );
                }
                if flags == 0 {
                    IrqLineAction::Open(abi.open_shared)
                } else {
                    IrqLineAction::Open(flags)
                }
            },
            Some(_) => IrqLineAction::Finished(Err(ObjectError::InsufficientCapabilities)),
        }
    }

    /// Goes on after a session was to be opened: where it was not, no object is
    /// made for it.
    pub fn after_open(opened: Result<(), IrqError>) -> (step: SessionStep)
        ensures
            step == (match opened {
                Ok(_) => SessionStep::MakeObject,
                Err(error) => SessionStep::Done(IrqReply::Failed(error)),
            }),
    {
        match opened {
            Ok(()) => SessionStep::MakeObject,
            Err(error) => SessionStep::Done(IrqSyscallCodec::underlying_error(error)),
        }
    }

    /// Ends a request to open a session: puts a handle to its object, with the
    /// rights of a session, into the caller's table. `owner` is the owner handle
    /// of the object.
    pub fn finish_open(
        table: &mut HandleTable,
        abi: &IrqAbi,
        owner: Result<Handle, ObjectError>,
    ) -> (result: Result<IrqReply, ObjectError>)
        requires
            old(table).wf(),
            has_free_slot(old(table)@),
        ensures
            final(table).wf(),
            match session_made(*abi, owner) {
                Err(error) => result == Err::<IrqReply, ObjectError>(error) && final(table)@
                    == old(table)@,
                Ok(handle) => exists|slot: u32|
                    #![trigger lowest_free(old(table)@, slot)]
                    {
                        &&& lowest_free(old(table)@, slot)
                        &&& final(table)@ == old(table)@.insert(slot as u64, handle)
                        &&& result == Ok::<IrqReply, ObjectError>(words(slot as usize, 0, 0))
                    },
            },
    {
        match make_session(abi, owner) {
            Err(error) => Err(error),
            Ok(handle) => {
                let slot: u32 = table.install_handle_auto(handle);
                assert(lowest_free(old(table)@, slot));
                Ok(
                    IrqSyscallCodec::ok(
                        ReplyValues { v0: slot as usize, v1: 0, v2: 0, v3: 0, v4: 0 },
                    ),
                )
            },
        }
    }
}

/// What follows the opening of a session.
#[derive(Debug, Clone, Copy, PartialEq, Eq, Structural)]
pub enum SessionStep {
    /// Make the object of the session.
    MakeObject,
    Done(IrqReply),
}

/// Admin-side guard for one IRQ line resource object.
pub struct IrqLineAdminGuard {
    pub interface_caps: u32,
}

impl IrqLineAdminGuard {
    /// Decides on a request; `None` is a number that names no method.
    pub fn dispatch(
        &self,
        abi: &IrqAbi,
        method: Option<IrqLineMethod>,
        arg: usize,
        state: Result<IrqLineState, IrqError>,
    ) -> (action: IrqLineAction)
        ensures
            action == (match method {
                None => bad_parameter(),
                Some(IrqLineMethod::QueryState) => line_answer(self.interface_caps, *abi, state),
                Some(IrqLineMethod::OpenSession) => open_action(self.interface_caps, *abi, arg),
                Some(IrqLineMethod::SetDestination) => if covers(
                    self.interface_caps,
                    abi.line_route,
                ) {
                    IrqLineAction::Route(arg)
                } else {
                    refused_line()
                },
            }),
    {
        match method {
            None => IrqLineAction::Finished(
                Ok(IrqSyscallCodec::underlying_error(IrqError::InvalidParameter)),
            ),
            Some(IrqLineMethod::QueryState) => answer_line(self.interface_caps, abi, state),
            Some(IrqLineMethod::OpenSession) => IrqLineAgentGuard {
                interface_caps: self.interface_caps,
            }.dispatch(abi, method, arg),
            Some(IrqLineMethod::SetDestination) => {
                if !caps_cover(self.interface_caps, abi.line_route) {
                    return IrqLineAction::Finished(Err(ObjectError::InsufficientCapabilities));
                }
                IrqLineAction::Route(arg)
            },
        }
    }

    /// Ends a request to route the line.
    pub fn finish_route(result: Result<(), IrqError>) -> (reply: IrqReply)
        ensures
            reply == (match result {
                Ok(_) => words(0, 0, 0),
                Err(error) => IrqReply::Failed(error),
            }),
    {
        match result {
            Ok(()) => IrqSyscallCodec::ok(ReplyValues { v0: 0, v1: 0, v2: 0, v3: 0, v4: 0 }),
            Err(error) => IrqSyscallCodec::underlying_error(error),
        }
    }
}

/// Side from which a session is used.
#[derive(Debug, Clone, Copy, PartialEq, Eq, Structural)]
pub enum IrqSessionGuardMode {
    Read,
    Write,
    Execute,
    Agent,
    Admin,
}

impl IrqSessionGuardMode {
    pub open spec fn allows(self, method: IrqSessionMethod) -> bool {
        self == IrqSessionGuardMode::Admin || (self == IrqSessionGuardMode::Read && method
            == IrqSessionMethod::QueryState)
    }

    /// Whether this mode reaches a method.
    pub fn allows_method(self, method: IrqSessionMethod) -> (allowed: bool)
        ensures
            allowed == self.allows(method),
    {
        match self {
            IrqSessionGuardMode::Admin => true,
            IrqSessionGuardMode::Read => matches!(method, IrqSessionMethod::QueryState),
            _ => false,
        }
    }

    /// Whether this mode may wait.
    pub fn allows_wait(self) -> (allowed: bool)
        ensures
            allowed == (self == IrqSessionGuardMode::Execute || self == IrqSessionGuardMode::Admin),
    {
        matches!(self, IrqSessionGuardMode::Execute | IrqSessionGuardMode::Admin)
    }

    /// Whether this mode may acknowledge.
    pub fn allows_ack(self) -> (allowed: bool)
        ensures
            allowed == (self == IrqSessionGuardMode::Write || self == IrqSessionGuardMode::Admin),
    {
        matches!(self, IrqSessionGuardMode::Write | IrqSessionGuardMode::Admin)
    }
}

/// What an invocation of a session does to it.
#[derive(Debug, Clone, Copy, PartialEq, Eq, Structural)]
pub enum IrqSessionAction {
    Keep,
    SetEnabled(bool),
    Close,
}

/// Mode-constrained guard for one shared IRQ session object.
#[derive(Debug, Clone, Copy, PartialEq, Eq, Structural)]
pub struct IrqSessionGuard {
    pub interface_caps: u32,
    pub mode: IrqSessionGuardMode,
}

impl IrqSessionGuard {
    pub open spec fn needed(abi: IrqAbi, method: IrqSessionMethod) -> u32 {
        match method {
            IrqSessionMethod::QueryState => abi.session_query,
            _ => abi.session_enable,
        }
    }

    pub open spec fn may(self, abi: IrqAbi, method: IrqSessionMethod) -> bool {
        self.mode.allows(method) && covers(self.interface_caps, Self::needed(abi, method))
    }

    fn require_method(&self, method: IrqSessionMethod, caps: u32) -> (result: Result<
        (),
        ObjectError,
    >)
        ensures
            result == (if self.mode.allows(method) && covers(self.interface_caps, caps) {
                Ok::<(), ObjectError>(())
            } else {
                Err::<(), ObjectError>(ObjectError::InsufficientCapabilities)
            }),
    {
        if !self.mode.allows_method(method) || !caps_cover(self.interface_caps, caps) {
            return Err(ObjectError::InsufficientCapabilities);
        }
        Ok(())
    }

    /// Whether the caller may wait for a delivery.
    pub fn require_wait(&self, abi: &IrqAbi) -> (result: Result<(), ObjectError>)
        ensures
            result == (if (self.mode == IrqSessionGuardMode::Execute || self.mode
                == IrqSessionGuardMode::Admin) && covers(self.interface_caps, abi.session_wait) {
                Ok::<(), ObjectError>(())
            } else {
                Err::<(), ObjectError>(ObjectError::InsufficientCapabilities)
            }),
    {
        if !self.mode.allows_wait() || !caps_cover(self.interface_caps, abi.session_wait) {
            return Err(ObjectError::InsufficientCapabilities);
        }
        Ok(())
    }

    /// Whether the caller may acknowledge a delivery.
    pub fn require_ack(&self, abi: &IrqAbi) -> (result: Result<(), ObjectError>)
        ensures
            result == (if (self.mode == IrqSessionGuardMode::Write || self.mode
                == IrqSessionGuardMode::Admin) && covers(self.interface_caps, abi.session_ack) {
                Ok::<(), ObjectError>(())
            } else {
                Err::<(), ObjectError>(ObjectError::InsufficientCapabilities)
            }),
    {
        if !self.mode.allows_ack() || !caps_cover(self.interface_caps, abi.session_ack) {
            return Err(ObjectError::InsufficientCapabilities);
        }
        Ok(())
    }

    /// Decides on a request; `None` is a number that names no method.
    pub fn dispatch(
        &self,
        abi: &IrqAbi,
        method: Option<IrqSessionMethod>,
        arg: usize,
        state: IrqSessionState,
    ) -> (outcome: (IrqSessionAction, Result<IrqReply, ObjectError>))
        ensures
            match method {
                None => outcome == (
                    IrqSessionAction::Keep,
                    Ok::<IrqReply, ObjectError>(IrqReply::Failed(IrqError::InvalidParameter)),
                ),
                Some(method) => if !self.may(*abi, method) {
                    outcome == (
                        IrqSessionAction::Keep,
                        Err::<IrqReply, ObjectError>(ObjectError::InsufficientCapabilities),
                    )
                } else {
                    match method {
                        IrqSessionMethod::QueryState => outcome == (
                            IrqSessionAction::Keep,
                            Ok::<IrqReply, ObjectError>(
                                IrqReply::Done(IrqSyscallCodec::session_words(state)),
                            ),
                        ),
                        IrqSessionMethod::SetEnabled => outcome == (
                            IrqSessionAction::SetEnabled(arg != 0),
                            Ok::<IrqReply, ObjectError>(words(0, 0, 0)),
                        ),
                        IrqSessionMethod::Close => outcome == (
                            IrqSessionAction::Close,
                            Ok::<IrqReply, ObjectError>(words(0, 0, 0)),
                        ),
                    }
                },
            },
    {
        let method = match method {
            Some(method) => method,
            None => {
                return (
                    IrqSessionAction::Keep,
                    Ok(IrqSyscallCodec::underlying_error(IrqError::InvalidParameter)),
                );
            },
        };
        let needed: u32 = match method {
            IrqSessionMethod::QueryState => abi.session_query,
            _ => abi.session_enable,
        };
        if let Err(error) = self.require_method(method, needed) {
            return (IrqSessionAction::Keep, Err(error));
        }
        let done = IrqSyscallCodec::ok(ReplyValues { v0: 0, v1: 0, v2: 0, v3: 0, v4: 0 });
        match method {
            IrqSessionMethod::QueryState => (
                IrqSessionAction::Keep,
                Ok(IrqSyscallCodec::pack_session_state(state)),
            ),
            IrqSessionMethod::SetEnabled => (IrqSessionAction::SetEnabled(arg != 0), Ok(done)),
            IrqSessionMethod::Close => (IrqSessionAction::Close, Ok(done)),
        }
    }
}

/// Only the admin side of a session can switch or close it.
pub proof fn law_only_admin_changes_session(
    guard: IrqSessionGuard,
    abi: IrqAbi,
    method: IrqSessionMethod,
)
    requires
        guard.may(abi, method),
        method != IrqSessionMethod::QueryState,
    ensures
        guard.mode == IrqSessionGuardMode::Admin,
{
}

} // verus!
