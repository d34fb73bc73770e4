//! Invocation of port objects.
//!
//! A dispatch decides on values: the operands that the object system resolved,
//! what was copied in from the caller, the caller's handle table and the
//! mailboxes. Where a receive has nothing to return yet, the dispatch asks to be
//! run again after the inbox has been notified.

use super::cap::{
    P_BIND_RECV, P_CLOSE_PORT, P_LISTEN, P_PUBLISH, P_QUERY_STATE, P_REBIND_RECV, P_RECV_MSG,
    P_SEND_MSG, P_SUBSCRIBE, P_UNSUBSCRIBE, caps_cover, covers,
};
use super::fanout::{BroadcastPort, BusPort, FanoutPort};
use super::frame::{InvokeReply, IpcError, IpcInvokeFrame, PortMethod, ReplyValues};
use super::inbox::{MailboxView, TryRecv};
use super::message::{Message, MessageView};
use super::port::{
    MailboxSet, PortBindError, PortKind, PortSendError, PortSendFailure, PortState, Route,
    UnicastPort, accepts, send_result,
};
use super::user::{
    PortCapabilityTransfer, PortUserMessage, PortUserMessageError, UserFaults, UserInput,
    UserWrites, into_message, marshalled, message_handles, transferred_slots, write_effect,
    write_message,
};
use crate::error::ObjectOrUnderlyingError;
use crate::object::{Handle, HandleTable, ObjectError, close_all, closes_all};
use vstd::prelude::*;

verus! {

/// Access plane through which an object is invoked.
#[derive(Debug, Clone, Copy, PartialEq, Eq, Structural)]
pub enum GuardMode {
    Read,
    Write,
    Execute,
    Agent,
    Admin,
}

impl GuardMode {
    /// Whether the access plane offers the method at all.
    pub open spec fn offers(self, method: PortMethod) -> bool {
        match self {
            GuardMode::Admin => true,
            GuardMode::Agent => !(method is RebindReceiver || method is Close),
            GuardMode::Read => method is QueryState,
            GuardMode::Write => method is BindReceiver || method is Subscribe
                || method is Unsubscribe,
            GuardMode::Execute => method is Send || method is Recv,
        }
    }

    /// Whether the access plane and the interface capabilities permit the
    /// method.
    pub open spec fn permits(self, interface_caps: u32, method: PortMethod, caps: u32) -> bool {
        self.offers(method) && covers(interface_caps, caps)
    }

    /// Checks that this mode reaches a method and that the handle has its right.
    pub fn require_method(self, interface_caps: u32, method: PortMethod, caps: u32) -> (result:
        Result<(), ObjectError>)
        ensures
            result == (if self.permits(interface_caps, method, caps) {
                Ok::<(), ObjectError>(())
            } else {
                Err::<(), ObjectError>(ObjectError::InsufficientCapabilities)
            }),
    {
        let offered = match self {
            GuardMode::Admin => true,
            GuardMode::Agent => !matches!(method, PortMethod::RebindReceiver | PortMethod::Close),
            GuardMode::Read => matches!(method, PortMethod::QueryState),
            GuardMode::Write => matches!(
                method,
                PortMethod::BindReceiver | PortMethod::Subscribe | PortMethod::Unsubscribe
            ),
            GuardMode::Execute => matches!(method, PortMethod::Send | PortMethod::Recv),
        };
        if !offered || !caps_cover(interface_caps, caps) {
            return Err(ObjectError::InsufficientCapabilities);
        }
        Ok(())
    }
}

/// No access plane but the administrative one can rebind or close a port.
pub proof fn law_only_admin_closes(mode: GuardMode, interface_caps: u32, caps: u32)
    ensures
        mode.permits(interface_caps, PortMethod::Close, caps) ==> mode == GuardMode::Admin,
        mode.permits(interface_caps, PortMethod::RebindReceiver, caps) ==> mode
            == GuardMode::Admin,
{
}

/// Operands of one invocation, as resolved for the caller.
pub struct PortRequest {
    /// The method, if its number is known.
    pub method: Option<PortMethod>,
    /// The process operand as a route.
    pub route: Result<Route, ObjectError>,
    /// The process operand as a process id.
    pub process: Result<u64, ObjectError>,
    /// The calling process.
    pub caller: Result<u64, ObjectError>,
    /// The inbox of the calling process.
    pub inbox: Result<u64, ObjectError>,
    /// The descriptor of a send with what it points to; `None` on a fault.
    pub input: Option<UserInput>,
    /// The descriptor of a receive; `None` on a fault.
    pub desc: Option<PortUserMessage>,
    /// Which copies back to the caller fault.
    pub faults: UserFaults,
}

/// What an invocation comes to.
pub enum PortOutcome {
    /// A reply frame, or an error of the object system.
    Finished(Result<InvokeReply, ObjectError>),
    /// Success, after these values have been written to the caller.
    Received(UserWrites),
    /// Nothing to receive yet.
    Wait,
}

pub open spec fn replied(reply: InvokeReply) -> PortOutcome {
    PortOutcome::Finished(Ok(reply))
}

pub open spec fn refused(error: ObjectError) -> PortOutcome {
    PortOutcome::Finished(Err(error))
}

/// The outcome of an error while messages are converted.
pub open spec fn user_error(error: PortUserMessageError) -> PortOutcome {
    match error {
        ObjectOrUnderlyingError::Object(error) => refused(error),
        ObjectOrUnderlyingError::Underlying(error) => replied(InvokeReply::Ipc(error)),
    }
}

fn dispatch_ipc_error(error: IpcError) -> (outcome: PortOutcome)
    ensures
        outcome == replied(InvokeReply::Ipc(error)),
{
    PortOutcome::Finished(Ok(IpcInvokeFrame::ipc_error(error)))
}

fn dispatch_user_error(error: PortUserMessageError) -> (outcome: PortOutcome)
    ensures
        outcome == user_error(error),
{
    match error.into_object_or_underlying() {
        Ok(error) => PortOutcome::Finished(Err(error)),
        Err(error) => dispatch_ipc_error(error),
    }
}

/// The outcome of a send: on success the transferred slots are given up.
pub open spec fn after_send(
    result: Result<(), PortSendFailure>,
    input: UserInput,
    before: Map<u64, Handle>,
    after: Map<u64, Handle>,
    outcome: PortOutcome,
) -> bool {
    match result {
        Err(failure) => outcome == replied(InvokeReply::Ipc(failure.ipc())) && after == before,
        Ok(()) => {
            let slots = transferred_slots(input);
            &&& after == close_all(before, slots)
            &&& outcome == (if closes_all(before, slots) {
                replied(IpcInvokeFrame::one(0))
            } else {
                refused(ObjectError::ObjectNotFound)
            })
        },
    }
}

fn finish_send(
    result: Result<(), PortSendError>,
    transfer: PortCapabilityTransfer,
    handles: &mut HandleTable,
) -> (outcome: PortOutcome)
    requires
        old(handles).wf(),
    ensures
        final(handles).wf(),
        match result {
            Err(error) => outcome == replied(InvokeReply::Ipc(error@.ipc())) && final(handles)@
                == old(handles)@,
            Ok(()) => {
                &&& final(handles)@ == close_all(old(handles)@, transfer.slots())
                &&& outcome == (if closes_all(old(handles)@, transfer.slots()) {
                    replied(IpcInvokeFrame::one(0))
                } else {
                    refused(ObjectError::ObjectNotFound)
                })
            },
        },
{
    match result {
        Err(error) => dispatch_ipc_error(error.ipc_error()),
        Ok(()) => match transfer.commit(handles) {
            Ok(()) => PortOutcome::Finished(Ok(IpcInvokeFrame::empty_ok())),
            Err(error) => dispatch_user_error(error),
        },
    }
}

/// Whether a message waits for the port in the inbox.
pub open spec fn has_message(boxes: Map<u64, MailboxView>, inbox: u64, port_id: u64) -> bool {
    boxes.dom().contains(inbox) && boxes[inbox].stream(port_id).len() > 0
}

/// Nothing has changed for any other port or inbox.
pub open spec fn others_untouched(
    before: Map<u64, MailboxView>,
    after: Map<u64, MailboxView>,
    inbox: u64,
    port_id: u64,
) -> bool {
    &&& after.dom() == before.dom()
    &&& forall|other: u64| #[trigger]
        before.dom().contains(other) && other != inbox ==> after[other] == before[other]
    &&& before.dom().contains(inbox) ==> after[inbox].open == before[inbox].open && forall|
        port: u64,
    |
        port != port_id ==> #[trigger] after[inbox].stream(port) == before[inbox].stream(port)
}

/// The table has room for the handles of the next message.
pub open spec fn room_for_next(
    handles: Map<u64, Handle>,
    boxes: Map<u64, MailboxView>,
    inbox: Result<u64, ObjectError>,
    port_id: u64,
) -> bool {
    inbox is Ok && has_message(boxes, inbox->Ok_0, port_id) ==> handles.dom().len()
        + message_handles(boxes[inbox->Ok_0].stream(port_id)[0]).len() <= 0x1_0000_0000
}

/// What a receive comes to. A message that was taken is gone even where it
/// cannot be handed over.
pub open spec fn recv_effect(
    port_id: u64,
    request: PortRequest,
    handles_before: Map<u64, Handle>,
    boxes_before: Map<u64, MailboxView>,
    handles_after: Map<u64, Handle>,
    boxes_after: Map<u64, MailboxView>,
    outcome: PortOutcome,
) -> bool {
    match request.inbox {
        Err(error) => outcome == refused(error) && handles_after == handles_before && boxes_after
            == boxes_before,
        Ok(inbox) => {
            &&& others_untouched(boxes_before, boxes_after, inbox, port_id)
            &&& if has_message(boxes_before, inbox, port_id) {
                let stream = boxes_before[inbox].stream(port_id);
                &&& boxes_after[inbox].stream(port_id) == stream.skip(1)
                &&& match request.desc {
                    None => outcome == replied(InvokeReply::Ipc(IpcError::Fault))
                        && handles_after == handles_before,
                    Some(desc) => exists|result: Result<UserWrites, PortUserMessageError>| {
                        &&& #[trigger] write_effect(
                            desc,
                            stream[0],
                            request.faults,
                            handles_before,
                            handles_after,
                            result,
                        )
                        &&& match result {
                            Ok(writes) => outcome == PortOutcome::Received(writes),
                            Err(error) => outcome == user_error(error),
                        }
                    },
                }
            } else {
                &&& handles_after == handles_before
                &&& boxes_before.dom().contains(inbox) ==> boxes_after[inbox].stream(port_id)
                    == boxes_before[inbox].stream(port_id)
                &&& outcome == (if accepts(boxes_before, inbox) {
                    PortOutcome::Wait
                } else {
                    replied(InvokeReply::Ipc(IpcError::ReceiverClosed))
                })
            }
        },
    }
}

/// Receives the next message for the port and hands it to the caller.
fn recv_for_port(
    port_id: u64,
    request: &PortRequest,
    handles: &mut HandleTable,
    boxes: &mut MailboxSet,
) -> (outcome: PortOutcome)
    requires
        old(handles).wf(),
        old(boxes).wf(),
        room_for_next(old(handles)@, old(boxes)@, request.inbox, port_id),
    ensures
        final(handles).wf(),
        final(boxes).wf(),
        recv_effect(
            port_id,
            *request,
            old(handles)@,
            old(boxes)@,
            final(handles)@,
            final(boxes)@,
            outcome,
        ),
{
    let inbox: u64 = match request.inbox {
        Err(error) => {
            return PortOutcome::Finished(Err(error));
        },
        Ok(inbox) => inbox,
    };
    match boxes.try_recv(inbox, port_id) {
        TryRecv::Empty => PortOutcome::Wait,
        TryRecv::Closed => dispatch_ipc_error(IpcError::ReceiverClosed),
        TryRecv::Message(message) => match request.desc {
            None => dispatch_ipc_error(IpcError::Fault),
            Some(desc) => {
                let ghost view = message@;
                let result = write_message(desc, handles, message, request.faults);
                assert(write_effect(
                    desc,
                    view,
                    request.faults,
                    old(handles)@,
                    handles@,
                    result,
                ));
                match result {
                    Ok(writes) => PortOutcome::Received(writes),
                    Err(error) => dispatch_user_error(error),
                }
            },
        },
    }
}

/// The reply to a binding request.
pub open spec fn bind_reply(result: Result<(), PortBindError>, pid: u64) -> PortOutcome {
    match result {
        Ok(()) => replied(IpcInvokeFrame::one(pid as usize)),
        Err(error) => replied(InvokeReply::Ipc(error.ipc())),
    }
}

fn finish_bind(result: Result<(), PortBindError>, pid: u64) -> (outcome: PortOutcome)
    ensures
        outcome == bind_reply(result, pid),
{
    match result {
        Ok(()) => PortOutcome::Finished(Ok(IpcInvokeFrame::ok_one(pid as usize))),
        Err(error) => dispatch_ipc_error(error.ipc_error()),
    }
}

/// Guard of a unicast port.
#[derive(Debug, Clone, Copy, PartialEq, Eq, Structural)]
pub struct UnicastPortGuard {
    pub interface_caps: u32,
    pub mode: GuardMode,
}

/// Everything that an invocation of a unicast port can change.
pub struct UnicastWorld {
    pub port: UnicastPort,
    pub handles: Map<u64, Handle>,
    pub boxes: Map<u64, MailboxView>,
}

/// The interface capability that each method of a unicast port needs.
pub open spec fn unicast_cap(method: PortMethod) -> u32 {
    match method {
        PortMethod::QueryState => P_QUERY_STATE,
        PortMethod::Send => P_SEND_MSG,
        PortMethod::Recv => P_RECV_MSG,
        PortMethod::BindReceiver => P_BIND_RECV,
        PortMethod::RebindReceiver => P_REBIND_RECV,
        _ => P_CLOSE_PORT,
    }
}

impl UnicastPortGuard {
    /// What an invocation comes to, method by method.
    pub open spec fn effect(
        self,
        request: PortRequest,
        before: UnicastWorld,
        after: UnicastWorld,
        outcome: PortOutcome,
    ) -> bool {
        match request.method {
            None => outcome == replied(InvokeReply::Ipc(IpcError::InvalidArgument)) && after
                == before,
            Some(PortMethod::Subscribe) => outcome == replied(
                InvokeReply::Ipc(IpcError::InvalidArgument),
            ) && after == before,
            Some(PortMethod::Unsubscribe) => outcome == replied(
                InvokeReply::Ipc(IpcError::InvalidArgument),
            ) && after == before,
            Some(method) => if !self.mode.permits(
                self.interface_caps,
                method,
                unicast_cap(method),
            ) {
                outcome == refused(ObjectError::InsufficientCapabilities) && after == before
            } else {
                match method {
                    PortMethod::QueryState => {
                        &&& after == before
                        &&& outcome == replied(
                            InvokeReply::Done(
                                ReplyValues {
                                    v0: PortKind::Unicast.number(),
                                    v1: before.port.state.number() as usize,
                                    v2: before.port.accepted as usize,
                                    v3: before.port.failed as usize,
                                    v4: match before.port.receiver {
                                        Some(route) => route.pid as usize,
                                        None => usize::MAX,
                                    },
                                },
                            ),
                        )
                    },
                    PortMethod::Send => match request.input {
                        None => outcome == replied(InvokeReply::Ipc(IpcError::Fault)) && after
                            == before,
                        Some(input) => match marshalled(input, before.handles) {
                            Err(error) => outcome == user_error(error) && after == before,
                            Ok(message) => exists|result: Result<(), PortSendFailure>| {
                                &&& #[trigger] UnicastPort::send_effect(
                                    before.port,
                                    before.boxes,
                                    message,
                                    after.port,
                                    after.boxes,
                                    result,
                                )
                                &&& after_send(
                                    result,
                                    input,
                                    before.handles,
                                    after.handles,
                                    outcome,
                                )
                            },
                        },
                    },
                    PortMethod::Recv => {
                        &&& after.port == before.port
                        &&& recv_effect(
                            before.port.id,
                            request,
                            before.handles,
                            before.boxes,
                            after.handles,
                            after.boxes,
                            outcome,
                        )
                    },
                    PortMethod::BindReceiver => match request.route {
                        Err(error) => outcome == refused(error) && after == before,
                        Ok(route) => {
                            &&& after.handles == before.handles && after.boxes == before.boxes
                            &&& if before.port.state != PortState::Open {
                                outcome == bind_reply(Err(PortBindError::Closed), route.pid)
                                    && after.port == before.port
                            } else if before.port.receiver is Some {
                                outcome == bind_reply(Err(PortBindError::AlreadyBound), route.pid)
                                    && after.port == before.port
                            } else {
                                outcome == bind_reply(Ok(()), route.pid) && after.port == (
                                UnicastPort { receiver: Some(route), ..before.port })
                            }
                        },
                    },
                    PortMethod::RebindReceiver => match request.route {
                        Err(error) => outcome == refused(error) && after == before,
                        Ok(route) => {
                            &&& after.handles == before.handles && after.boxes == before.boxes
                            &&& if before.port.state != PortState::Open {
                                outcome == bind_reply(Err(PortBindError::Closed), route.pid)
                                    && after.port == before.port
                            } else {
                                outcome == bind_reply(Ok(()), route.pid) && after.port == (
                                UnicastPort { receiver: Some(route), ..before.port })
                            }
                        },
                    },
                    PortMethod::Close => {
                        &&& after.handles == before.handles && after.boxes == before.boxes
                        &&& after.port == (UnicastPort {
                            state: PortState::Closed,
                            receiver: None,
                            ..before.port
                        })
                        &&& outcome == replied(IpcInvokeFrame::one(0))
                    },
                    _ => {
                        &&& after.handles == before.handles && after.boxes == before.boxes
                        &&& after.port == (UnicastPort {
                            state: PortState::Frozen,
                            ..before.port
                        })
                        &&& outcome == replied(IpcInvokeFrame::one(0))
                    },
                }
            },
        }
    }

    /// Runs one invocation of a unicast port.
    pub fn dispatch(
        &self,
        port: &mut UnicastPort,
        request: PortRequest,
        handles: &mut HandleTable,
        boxes: &mut MailboxSet,
    ) -> (outcome: PortOutcome)
        requires
            old(handles).wf(),
            old(boxes).wf(),
            room_for_next(old(handles)@, old(boxes)@, request.inbox, old(port).id),
        ensures
            final(handles).wf(),
            final(boxes).wf(),
            self.effect(
                request,
                (UnicastWorld { port: *old(port), handles: old(handles)@, boxes: old(boxes)@ }),
                (UnicastWorld {
                    port: *final(port),
                    handles: final(handles)@,
                    boxes: final(boxes)@,
                }),
                outcome,
            ),
    {
        let method = match request.method {
            None => {
                return dispatch_ipc_error(IpcError::InvalidArgument);
            },
            Some(method) => method,
        };
        match method {
            PortMethod::QueryState => {
                match self.mode.require_method(self.interface_caps, method, P_QUERY_STATE) {
                    Err(error) => {
                        return PortOutcome::Finished(Err(error));
                    },
                    Ok(()) => {},
                }
                let stats = port.stats();
                let values = ReplyValues {
                    v0: port.kind().as_usize(),
                    v1: port.state.as_u8() as usize,
                    v2: stats.accepted as usize,
                    v3: stats.failed as usize,
                    v4: match port.receiver_pid() {
                        Some(pid) => pid as usize,
                        None => usize::MAX,
                    },
                };
                PortOutcome::Finished(Ok(IpcInvokeFrame::ok(values)))
            },
            PortMethod::Send => {
                match self.mode.require_method(self.interface_caps, method, P_SEND_MSG) {
                    Err(error) => {
                        return PortOutcome::Finished(Err(error));
                    },
                    Ok(()) => {},
                }
                let input = match request.input {
                    None => {
                        return dispatch_ipc_error(IpcError::Fault);
                    },
                    Some(input) => input,
                };
                let (message, transfer) = match into_message(input, handles) {
                    Err(error) => {
                        return dispatch_user_error(error);
                    },
                    Ok(converted) => converted,
                };
                let ghost view = message@;
                let result = port.send(boxes, message);
                let ghost sent = send_result(result);
                let outcome = finish_send(result, transfer, handles);
                proof {
                    let before = UnicastWorld {
                        port: *old(port),
                        handles: old(handles)@,
                        boxes: old(boxes)@,
                    };
                    let after = UnicastWorld { port: *port, handles: handles@, boxes: boxes@ };
                    assert(marshalled(input, before.handles) == Ok::<
                        MessageView,
                        PortUserMessageError,
                    >(view));
                    assert(UnicastPort::send_effect(
                        before.port,
                        before.boxes,
                        view,
                        after.port,
                        after.boxes,
                        sent,
                    ));
                    assert(after_send(sent, input, before.handles, after.handles, outcome));
                    assert(request.input == Some(input));
                    assert(self.effect(request, before, after, outcome));
                }
                outcome
            },
            PortMethod::Recv => {
                match self.mode.require_method(self.interface_caps, method, P_RECV_MSG) {
                    Err(error) => {
                        return PortOutcome::Finished(Err(error));
                    },
                    Ok(()) => {},
                }
                recv_for_port(port.id, &request, handles, boxes)
            },
            PortMethod::BindReceiver => {
                match self.mode.require_method(self.interface_caps, method, P_BIND_RECV) {
                    Err(error) => {
                        return PortOutcome::Finished(Err(error));
                    },
                    Ok(()) => {},
                }
                match request.route {
                    Err(error) => PortOutcome::Finished(Err(error)),
                    Ok(route) => finish_bind(port.bind_receiver(route), route.pid),
                }
            },
            PortMethod::RebindReceiver => {
                match self.mode.require_method(self.interface_caps, method, P_REBIND_RECV) {
                    Err(error) => {
                        return PortOutcome::Finished(Err(error));
                    },
                    Ok(()) => {},
                }
                match request.route {
                    Err(error) => PortOutcome::Finished(Err(error)),
                    Ok(route) => finish_bind(port.rebind_receiver(route), route.pid),
                }
            },
            PortMethod::Close => {
                match self.mode.require_method(self.interface_caps, method, P_CLOSE_PORT) {
                    Err(error) => {
                        return PortOutcome::Finished(Err(error));
                    },
                    Ok(()) => {},
                }
                port.close();
                PortOutcome::Finished(Ok(IpcInvokeFrame::empty_ok()))
            },
            PortMethod::Freeze => {
                match self.mode.require_method(self.interface_caps, method, P_CLOSE_PORT) {
                    Err(error) => {
                        return PortOutcome::Finished(Err(error));
                    },
                    Ok(()) => {},
                }
                port.freeze();
                PortOutcome::Finished(Ok(IpcInvokeFrame::empty_ok()))
            },
            PortMethod::Subscribe | PortMethod::Unsubscribe => dispatch_ipc_error(
                IpcError::InvalidArgument,
            ),
        }
    }
}

/// Everything that an invocation of a fan-out port can change.
pub struct FanoutWorld {
    pub port: FanoutPort,
    pub handles: Map<u64, Handle>,
    pub boxes: Map<u64, MailboxView>,
}

/// Guard of a fan-out port, for one kind of it.
#[derive(Debug, Clone, Copy, PartialEq, Eq, Structural)]
pub struct FanoutGuard {
    pub interface_caps: u32,
    pub mode: GuardMode,
    pub kind: PortKind,
    /// Capability that a sender needs.
    pub send_cap: u32,
    /// Capability that a receiver needs.
    pub recv_cap: u32,
}

impl FanoutGuard {
    /// The interface capability that each method of a fan-out port needs.
    pub open spec fn cap(self, method: PortMethod) -> u32 {
        match method {
            PortMethod::QueryState => P_QUERY_STATE,
            PortMethod::Send => self.send_cap,
            PortMethod::Recv => self.recv_cap,
            PortMethod::Subscribe => P_SUBSCRIBE,
            PortMethod::Unsubscribe => P_UNSUBSCRIBE,
            _ => P_CLOSE_PORT,
        }
    }

    /// What an invocation comes to, method by method.
    pub open spec fn effect(
        self,
        request: PortRequest,
        before: FanoutWorld,
        after: FanoutWorld,
        outcome: PortOutcome,
    ) -> bool {
        match request.method {
            None => outcome == replied(InvokeReply::Ipc(IpcError::InvalidArgument)) && after
                == before,
            Some(PortMethod::BindReceiver) => outcome == replied(
                InvokeReply::Ipc(IpcError::InvalidArgument),
            ) && after == before,
            Some(PortMethod::RebindReceiver) => outcome == replied(
                InvokeReply::Ipc(IpcError::InvalidArgument),
            ) && after == before,
            Some(method) => if !self.mode.permits(self.interface_caps, method, self.cap(method)) {
                outcome == refused(ObjectError::InsufficientCapabilities) && after == before
            } else {
                match method {
                    PortMethod::QueryState => {
                        &&& after == before
                        &&& outcome == replied(
                            InvokeReply::Done(
                                ReplyValues {
                                    v0: self.kind.number(),
                                    v1: before.port.state.number() as usize,
                                    v2: before.port.accepted as usize,
                                    v3: before.port.failed as usize,
                                    v4: before.port.subscribers@.dom().len() as usize,
                                },
                            ),
                        )
                    },
                    PortMethod::Send => match request.input {
                        None => outcome == replied(InvokeReply::Ipc(IpcError::Fault)) && after
                            == before,
                        Some(input) => match marshalled(input, before.handles) {
                            Err(error) => outcome == user_error(error) && after == before,
                            Ok(message) => exists|result: Result<(), PortSendFailure>| {
                                &&& #[trigger] FanoutPort::send_effect(
                                    before.port,
                                    before.boxes,
                                    message,
                                    after.port,
                                    after.boxes,
                                    result,
                                )
                                &&& after_send(
                                    result,
                                    input,
                                    before.handles,
                                    after.handles,
                                    outcome,
                                )
                            },
                        },
                    },
                    PortMethod::Recv => {
                        &&& after.port == before.port
                        &&& match request.caller {
                            Err(error) => outcome == refused(error) && after == before,
                            Ok(pid) => if !before.port.subscribers@.dom().contains(pid) {
                                outcome == replied(InvokeReply::Ipc(IpcError::NotSubscribed))
                                    && after == before
                            } else {
                                recv_effect(
                                    before.port.id,
                                    request,
                                    before.handles,
                                    before.boxes,
                                    after.handles,
                                    after.boxes,
                                    outcome,
                                )
                            },
                        }
                    },
                    PortMethod::Subscribe => match request.route {
                        Err(error) => outcome == refused(error) && after == before,
                        Ok(route) => {
                            &&& after.handles == before.handles && after.boxes == before.boxes
                            &&& FanoutPort::same_but_subscribers(before.port, after.port)
                            &&& if before.port.state != PortState::Open {
                                outcome == bind_reply(Err(PortBindError::Closed), route.pid)
                                    && after.port.subscribers@ == before.port.subscribers@
                            } else {
                                &&& after.port.subscribers@ == before.port.subscribers@.insert(
                                    route.pid,
                                    route.inbox,
                                )
                                &&& outcome == bind_reply(
                                    if before.port.subscribers@.dom().contains(route.pid) {
                                        Err(PortBindError::AlreadySubscribed)
                                    } else {
                                        Ok(())
                                    },
                                    route.pid,
                                )
                            }
                        },
                    },
                    PortMethod::Unsubscribe => match request.process {
                        Err(error) => outcome == refused(error) && after == before,
                        Ok(pid) => {
                            &&& after.handles == before.handles && after.boxes == before.boxes
                            &&& FanoutPort::same_but_subscribers(before.port, after.port)
                            &&& after.port.subscribers@ == before.port.subscribers@.remove(pid)
                            &&& outcome == bind_reply(
                                if before.port.subscribers@.dom().contains(pid) {
                                    Ok(())
                                } else {
                                    Err(PortBindError::NotSubscribed)
                                },
                                pid,
                            )
                        },
                    },
                    PortMethod::Close => {
                        &&& after.handles == before.handles && after.boxes == before.boxes
                        &&& after.port.state == PortState::Closed
                        &&& after.port.subscribers@ == Map::<u64, u64>::empty()
                        &&& after.port.id == before.port.id
                        &&& after.port.accepted == before.port.accepted
                        &&& after.port.failed == before.port.failed
                        &&& outcome == replied(IpcInvokeFrame::one(0))
                    },
                    _ => {
                        &&& after.handles == before.handles && after.boxes == before.boxes
                        &&& after.port == (FanoutPort { state: PortState::Frozen, ..before.port })
                        &&& outcome == replied(IpcInvokeFrame::one(0))
                    },
                }
            },
        }
    }

    /// Runs one invocation of a fan-out port.
    pub fn dispatch(
        &self,
        port: &mut FanoutPort,
        request: PortRequest,
        handles: &mut HandleTable,
        boxes: &mut MailboxSet,
    ) -> (outcome: PortOutcome)
        requires
            old(port).wf(),
            old(handles).wf(),
            old(boxes).wf(),
            room_for_next(old(handles)@, old(boxes)@, request.inbox, old(port).id),
        ensures
            final(port).wf(),
            final(handles).wf(),
            final(boxes).wf(),
            self.effect(
                request,
                (FanoutWorld { port: *old(port), handles: old(handles)@, boxes: old(boxes)@ }),
                (FanoutWorld {
                    port: *final(port),
                    handles: final(handles)@,
                    boxes: final(boxes)@,
                }),
                outcome,
            ),
    {
        let method = match request.method {
            None => {
                return dispatch_ipc_error(IpcError::InvalidArgument);
            },
            Some(method) => method,
        };
        match method {
            PortMethod::QueryState => {
                match self.mode.require_method(self.interface_caps, method, P_QUERY_STATE) {
                    Err(error) => {
                        return PortOutcome::Finished(Err(error));
                    },
                    Ok(()) => {},
                }
                let stats = port.stats();
                PortOutcome::Finished(
                    Ok(
                        IpcInvokeFrame::ok(
                            ReplyValues {
                                v0: self.kind.as_usize(),
                                v1: port.state.as_u8() as usize,
                                v2: stats.accepted as usize,
                                v3: stats.failed as usize,
                                v4: port.subscriber_count(),
                            },
                        ),
                    ),
                )
            },
            PortMethod::Send => {
                match self.mode.require_method(self.interface_caps, method, self.send_cap) {
                    Err(error) => {
                        return PortOutcome::Finished(Err(error));
                    },
                    Ok(()) => {},
                }
                let input = match request.input {
                    None => {
                        return dispatch_ipc_error(IpcError::Fault);
                    },
                    Some(input) => input,
                };
                let (message, transfer) = match into_message(input, handles) {
                    Err(error) => {
                        return dispatch_user_error(error);
                    },
                    Ok(converted) => converted,
                };
                let ghost view = message@;
                let result = port.send(boxes, message);
                let ghost sent = send_result(result);
                let outcome = finish_send(result, transfer, handles);
                proof {
                    let before = FanoutWorld {
                        port: *old(port),
                        handles: old(handles)@,
                        boxes: old(boxes)@,
                    };
                    let after = FanoutWorld { port: *port, handles: handles@, boxes: boxes@ };
                    assert(marshalled(input, before.handles) == Ok::<
                        MessageView,
                        PortUserMessageError,
                    >(view));
                    assert(FanoutPort::send_effect(
                        before.port,
                        before.boxes,
                        view,
                        after.port,
                        after.boxes,
                        sent,
                    ));
                    assert(after_send(sent, input, before.handles, after.handles, outcome));
                    assert(request.input == Some(input));
                    assert(self.effect(request, before, after, outcome));
                }
                outcome
            },
            PortMethod::Recv => {
                match self.mode.require_method(self.interface_caps, method, self.recv_cap) {
                    Err(error) => {
                        return PortOutcome::Finished(Err(error));
                    },
                    Ok(()) => {},
                }
                match request.caller {
                    Err(error) => PortOutcome::Finished(Err(error)),
                    Ok(pid) => {
                        if !port.is_subscribed(pid) {
                            return dispatch_ipc_error(IpcError::NotSubscribed);
                        }
                        recv_for_port(port.id, &request, handles, boxes)
                    },
                }
            },
            PortMethod::Subscribe => {
                match self.mode.require_method(self.interface_caps, method, P_SUBSCRIBE) {
                    Err(error) => {
                        return PortOutcome::Finished(Err(error));
                    },
                    Ok(()) => {},
                }
                match request.route {
                    Err(error) => PortOutcome::Finished(Err(error)),
                    Ok(route) => finish_bind(port.subscribe(route), route.pid),
                }
            },
            PortMethod::Unsubscribe => {
                match self.mode.require_method(self.interface_caps, method, P_UNSUBSCRIBE) {
                    Err(error) => {
                        return PortOutcome::Finished(Err(error));
                    },
                    Ok(()) => {},
                }
                match request.process {
                    Err(error) => PortOutcome::Finished(Err(error)),
                    Ok(pid) => finish_bind(port.unsubscribe(pid), pid),
                }
            },
            PortMethod::Close => {
                match self.mode.require_method(self.interface_caps, method, P_CLOSE_PORT) {
                    Err(error) => {
                        return PortOutcome::Finished(Err(error));
                    },
                    Ok(()) => {},
                }
                port.close();
                PortOutcome::Finished(Ok(IpcInvokeFrame::empty_ok()))
            },
            PortMethod::Freeze => {
                match self.mode.require_method(self.interface_caps, method, P_CLOSE_PORT) {
                    Err(error) => {
                        return PortOutcome::Finished(Err(error));
                    },
                    Ok(()) => {},
                }
                port.freeze();
                PortOutcome::Finished(Ok(IpcInvokeFrame::empty_ok()))
            },
            PortMethod::BindReceiver | PortMethod::RebindReceiver => dispatch_ipc_error(
                IpcError::InvalidArgument,
            ),
        }
    }
}

/// Guard of a broadcast port.
#[derive(Debug, Clone, Copy, PartialEq, Eq, Structural)]
pub struct BroadcastPortGuard {
    pub interface_caps: u32,
    pub mode: GuardMode,
}

impl BroadcastPortGuard {
    /// Senders need the send capability, receivers the receive capability.
    pub open spec fn fanout(self) -> FanoutGuard {
        FanoutGuard {
            interface_caps: self.interface_caps,
            mode: self.mode,
            kind: PortKind::Broadcast,
            send_cap: P_SEND_MSG,
            recv_cap: P_RECV_MSG,
        }
    }

    /// Runs one invocation of a broadcast port.
    pub fn dispatch(
        &self,
        port: &mut BroadcastPort,
        request: PortRequest,
        handles: &mut HandleTable,
        boxes: &mut MailboxSet,
    ) -> (outcome: PortOutcome)
        requires
            old(port).inner.wf(),
            old(handles).wf(),
            old(boxes).wf(),
            room_for_next(old(handles)@, old(boxes)@, request.inbox, old(port).inner.id),
        ensures
            final(port).inner.wf(),
            final(handles).wf(),
            final(boxes).wf(),
            self.fanout().effect(
                request,
                (FanoutWorld {
                    port: old(port).inner,
                    handles: old(handles)@,
                    boxes: old(boxes)@,
                }),
                (FanoutWorld {
                    port: final(port).inner,
                    handles: final(handles)@,
                    boxes: final(boxes)@,
                }),
                outcome,
            ),
    {
        let guard = FanoutGuard {
            interface_caps: self.interface_caps,
            mode: self.mode,
            kind: port.kind(),
            send_cap: P_SEND_MSG,
            recv_cap: P_RECV_MSG,
        };
        guard.dispatch(&mut port.inner, request, handles, boxes)
    }
}

/// Guard of a bus port.
#[derive(Debug, Clone, Copy, PartialEq, Eq, Structural)]
pub struct BusPortGuard {
    pub interface_caps: u32,
    pub mode: GuardMode,
}

impl BusPortGuard {
    /// Senders need the publish capability, receivers the listen capability.
    pub open spec fn fanout(self) -> FanoutGuard {
        FanoutGuard {
            interface_caps: self.interface_caps,
            mode: self.mode,
            kind: PortKind::Bus,
            send_cap: P_PUBLISH,
            recv_cap: P_LISTEN,
        }
    }

    /// Runs one invocation of a bus port.
    pub fn dispatch(
        &self,
        port: &mut BusPort,
        request: PortRequest,
        handles: &mut HandleTable,
        boxes: &mut MailboxSet,
    ) -> (outcome: PortOutcome)
        requires
            old(port).inner.wf(),
            old(handles).wf(),
            old(boxes).wf(),
            room_for_next(old(handles)@, old(boxes)@, request.inbox, old(port).inner.id),
        ensures
            final(port).inner.wf(),
            final(handles).wf(),
            final(boxes).wf(),
            self.fanout().effect(
                request,
                (FanoutWorld {
                    port: old(port).inner,
                    handles: old(handles)@,
                    boxes: old(boxes)@,
                }),
                (FanoutWorld {
                    port: final(port).inner,
                    handles: final(handles)@,
                    boxes: final(boxes)@,
                }),
                outcome,
            ),
    {
        let guard = FanoutGuard {
            interface_caps: self.interface_caps,
            mode: self.mode,
            kind: port.kind(),
            send_cap: P_PUBLISH,
            recv_cap: P_LISTEN,
        };
        guard.dispatch(&mut port.inner, request, handles, boxes)
    }
}

/// A request that the guard does not permit changes nothing.
pub proof fn law_refused_request_changes_nothing(
    guard: FanoutGuard,
    request: PortRequest,
    before: FanoutWorld,
    after: FanoutWorld,
    outcome: PortOutcome,
)
    requires
        guard.effect(request, before, after, outcome),
        outcome == refused(ObjectError::InsufficientCapabilities),
        request.method matches Some(method) && !guard.mode.permits(
            guard.interface_caps,
            method,
            guard.cap(method),
        ),
    ensures
        after == before,
{
}

} // verus!
