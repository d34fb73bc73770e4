//! Reply ports: a queue for one answer.

use super::cap::{P_QUERY_STATE, P_RECV_MSG, P_SEND_MSG, caps_cover, covers};
use super::dispatch::{
    GuardMode, PortOutcome, PortRequest, after_send, refused, replied, user_error,
};
use super::frame::{InvokeReply, IpcError, IpcInvokeFrame, PortMethod};
use super::message::{Message, MessageView};
use super::port::{PortSendError, PortSendFailure};
use super::user::{
    PortUserMessageError, UserInput, UserWrites, into_message, marshalled, message_handles,
    write_effect, write_message,
};
use crate::object::{Capability, Handle, HandleTable, ObjectError};
use vstd::prelude::*;

verus! {

/// Anonymous point-to-point port for one reply.
pub struct ReplyPort {
    reply: Option<Message>,
    open: bool,
}

/// Contents of a reply port.
#[verifier::ext_equal]
pub struct ReplyView {
    pub reply: Option<MessageView>,
    pub open: bool,
}

impl View for ReplyPort {
    type V = ReplyView;

    closed spec fn view(&self) -> ReplyView {
        ReplyView {
            reply: match self.reply {
                Some(message) => Some(message@),
                None => None,
            },
            open: self.open,
        }
    }
}

/// What a send into a reply port comes to.
pub enum ReplySend {
    Sent,
    Failed(PortSendError),
    /// The previous reply has not been received yet: try again later.
    Full(Message),
}

/// What a receive from a reply port comes to.
pub enum ReplyRecv {
    Received(Message),
    Empty,
    Closed,
}

impl ReplyPort {
    pub fn new() -> (port: Self)
        ensures
            port@ == (ReplyView { reply: None, open: true }),
    {
        ReplyPort { reply: None, open: true }
    }

    /// Lets go of the receiving end.
    pub fn close(&mut self)
        ensures
            final(self)@ == (ReplyView { open: false, ..old(self)@ }),
    {
        self.open = false;
    }

    /// What sending a reply comes to.
    pub open spec fn send_effect(
        before: ReplyView,
        message: MessageView,
        after: ReplyView,
        result: ReplySend,
    ) -> bool {
        match result {
            ReplySend::Sent => {
                &&& message.sendable()
                &&& before.open
                &&& before.reply is None
                &&& after == (ReplyView { reply: Some(message), ..before })
            },
            ReplySend::Full(back) => {
                &&& message.sendable()
                &&& before.open
                &&& before.reply is Some
                &&& back@ == message
                &&& after == before
            },
            ReplySend::Failed(error) => {
                &&& after == before
                &&& if message.sendable() {
                    !before.open && error@ == PortSendFailure::ReceiverClosed(message)
                } else {
                    &&& error@ matches PortSendFailure::InvalidMessage { message: back, reason }
                    &&& back == message
                    &&& message.validation(Err(reason))
                }
            },
        }
    }

    /// Sends a reply: a message that may not travel is refused first, then a
    /// receiver that is gone.
    pub fn send(&mut self, message: Message) -> (result: ReplySend)
        ensures
            Self::send_effect(old(self)@, message@, final(self)@, result),
    {
        match message.validate() {
            Err(reason) => {
                return ReplySend::Failed(PortSendError::InvalidMessage { message, reason });
            },
            Ok(()) => {},
        }
        if !self.open {
            return ReplySend::Failed(PortSendError::ReceiverClosed(message));
        }
        if self.reply.is_some() {
            return ReplySend::Full(message);
        }
        self.reply = Some(message);
        ReplySend::Sent
    }

    /// What receiving the reply comes to.
    pub open spec fn recv_effect(before: ReplyView, after: ReplyView, result: ReplyRecv) -> bool {
        &&& after == (ReplyView { reply: None, ..before })
        &&& match result {
            ReplyRecv::Received(message) => before.reply == Some(message@),
            ReplyRecv::Empty => before.reply is None && before.open,
            ReplyRecv::Closed => before.reply is None && !before.open,
        }
    }

    /// Receives the reply, if it is there.
    pub fn try_recv(&mut self) -> (result: ReplyRecv)
        ensures
            Self::recv_effect(old(self)@, final(self)@, result),
    {
        match self.reply.take() {
            Some(message) => ReplyRecv::Received(message),
            None => if self.open {
                ReplyRecv::Empty
            } else {
                ReplyRecv::Closed
            },
        }
    }

    /// The split handles of a transient reply port: the sender may only send,
    /// the receiver may only receive and query.
    pub fn create_endpoints(owner: Handle) -> (result: Result<ReplyPortEndpoints, ObjectError>)
        ensures
            result == (match owner.derive_refusal {
                Some(error) => Err::<ReplyPortEndpoints, ObjectError>(error),
                None => Ok::<ReplyPortEndpoints, ObjectError>(
                    ReplyPortEndpoints {
                        owner,
                        sender: (Handle {
                            capabilities: Capability::plain(false, false, true, true),
                            interface_caps: P_SEND_MSG,
                            ..owner
                        }),
                        receiver: (Handle {
                            capabilities: Capability::plain(true, false, true, false),
                            interface_caps: P_RECV_MSG | P_QUERY_STATE,
                            ..owner
                        }),
                    },
                ),
            }),
    {
        let mut send_rights = Capability::none();
        send_rights.send = true;
        send_rights.execute = true;
        let sender = match owner.derive_handle(send_rights, P_SEND_MSG) {
            Err(error) => {
                return Err(error);
            },
            Ok(sender) => sender,
        };
        let mut recv_rights = Capability::none();
        recv_rights.read = true;
        recv_rights.execute = true;
        match owner.derive_handle(recv_rights, P_RECV_MSG | P_QUERY_STATE) {
            Err(error) => Err(error),
            Ok(receiver) => Ok(ReplyPortEndpoints { owner, sender, receiver }),
        }
    }
}

/// A message that is sent into an empty open reply port is what the next receive
/// gives, and the port is empty again.
pub proof fn law_reply_comes_back(
    before: ReplyView,
    message: MessageView,
    sent: ReplyView,
    send: ReplySend,
    after: ReplyView,
    received: ReplyRecv,
)
    requires
        before.open,
        before.reply is None,
        message.sendable(),
        ReplyPort::send_effect(before, message, sent, send),
        ReplyPort::recv_effect(sent, after, received),
    ensures
        send is Sent,
        received matches ReplyRecv::Received(reply) && reply@ == message,
        after == before,
{
}

/// Handles of a transient reply port.
#[derive(Debug, Clone, Copy, PartialEq, Eq, Structural)]
pub struct ReplyPortEndpoints {
    pub owner: Handle,
    pub sender: Handle,
    pub receiver: Handle,
}

impl ReplyPortEndpoints {
    pub fn into_parts(self) -> (parts: (Handle, Handle, Handle))
        ensures
            parts == (self.owner, self.sender, self.receiver),
    {
        (self.owner, self.sender, self.receiver)
    }
}

/// Guard of a reply port.
#[derive(Debug, Clone, Copy, PartialEq, Eq, Structural)]
pub struct ReplyPortGuard {
    pub interface_caps: u32,
    pub mode: GuardMode,
}

/// Everything that an invocation of a reply port can change.
pub struct ReplyWorld {
    pub port: ReplyView,
    pub handles: Map<u64, Handle>,
}

impl ReplyPortGuard {
    /// Whether the access plane offers the method of a reply port.
    pub open spec fn offers(self, method: PortMethod) -> bool {
        match self.mode {
            GuardMode::Admin => method is QueryState || method is Send || method is Recv,
            GuardMode::Agent => method is QueryState || method is Send || method is Recv,
            GuardMode::Read => method is QueryState,
            GuardMode::Write => false,
            GuardMode::Execute => method is Send || method is Recv,
        }
    }

    pub open spec fn permits(self, method: PortMethod, caps: u32) -> bool {
        self.offers(method) && covers(self.interface_caps, caps)
    }

    fn require_method(&self, method: PortMethod, caps: u32) -> (result: Result<(), ObjectError>)
        ensures
            result == (if self.permits(method, caps) {
                Ok::<(), ObjectError>(())
            } else {
                Err::<(), ObjectError>(ObjectError::InsufficientCapabilities)
            }),
    {
        let offered = match self.mode {
            GuardMode::Admin | GuardMode::Agent => matches!(
                method,
                PortMethod::QueryState | PortMethod::Send | PortMethod::Recv
            ),
            GuardMode::Read => matches!(method, PortMethod::QueryState),
            GuardMode::Write => false,
            GuardMode::Execute => matches!(method, PortMethod::Send | PortMethod::Recv),
        };
        if offered && caps_cover(self.interface_caps, caps) {
            Ok(())
        } else {
            Err(ObjectError::InsufficientCapabilities)
        }
    }

    /// What a send through a reply port comes to.
    pub open spec fn send_effect(
        input: UserInput,
        message: MessageView,
        before: ReplyWorld,
        after: ReplyWorld,
        outcome: PortOutcome,
    ) -> bool {
        if !message.sendable() {
            outcome == replied(InvokeReply::Ipc(IpcError::InvalidMessage)) && after == before
        } else if !before.port.open {
            outcome == replied(InvokeReply::Ipc(IpcError::ReceiverClosed)) && after == before
        } else if before.port.reply is Some {
            outcome is Wait && after == before
        } else {
            &&& after.port == (ReplyView { reply: Some(message), ..before.port })
            &&& after_send(Ok(()), input, before.handles, after.handles, outcome)
        }
    }

    /// What an invocation comes to, method by method.
    pub open spec fn effect(
        self,
        request: PortRequest,
        before: ReplyWorld,
        after: ReplyWorld,
        outcome: PortOutcome,
    ) -> bool {
        match request.method {
            Some(PortMethod::QueryState) => {
                &&& after == before
                &&& outcome == (if self.permits(PortMethod::QueryState, P_QUERY_STATE) {
                    replied(IpcInvokeFrame::one(0))
                } else {
                    refused(ObjectError::InsufficientCapabilities)
                })
            },
            Some(PortMethod::Send) => if !self.permits(PortMethod::Send, P_SEND_MSG) {
                outcome == refused(ObjectError::InsufficientCapabilities) && after == before
            } else {
                match request.input {
                    None => outcome == replied(InvokeReply::Ipc(IpcError::Fault)) && after
                        == before,
                    Some(input) => match marshalled(input, before.handles) {
                        Err(error) => outcome == user_error(error) && after == before,
                        Ok(message) => Self::send_effect(input, message, before, after, outcome),
                    },
                }
            },
            Some(PortMethod::Recv) => if !self.permits(PortMethod::Recv, P_RECV_MSG) {
                outcome == refused(ObjectError::InsufficientCapabilities) && after == before
            } else {
                match before.port.reply {
                    None => {
                        &&& after == before
                        &&& outcome == (if before.port.open {
                            PortOutcome::Wait
                        } else {
                            replied(InvokeReply::Ipc(IpcError::ReceiverClosed))
                        })
                    },
                    Some(message) => {
                        &&& after.port == (ReplyView { reply: None, ..before.port })
                        &&& match request.desc {
                            None => outcome == replied(InvokeReply::Ipc(IpcError::Fault))
                                && after.handles == before.handles,
                            Some(desc) => exists|result: Result<UserWrites, PortUserMessageError>| {
                                &&& #[trigger] write_effect(
                                    desc,
                                    message,
                                    request.faults,
                                    before.handles,
                                    after.handles,
                                    result,
                                )
                                &&& match result {
                                    Ok(writes) => outcome == PortOutcome::Received(writes),
                                    Err(error) => outcome == user_error(error),
                                }
                            },
                        }
                    },
                }
            },
            _ => outcome == replied(InvokeReply::Ipc(IpcError::InvalidArgument)) && after == before,
        }
    }

    /// Runs one invocation of a reply port.
    pub fn dispatch(&self, port: &mut ReplyPort, request: PortRequest, handles: &mut HandleTable) -> (
    outcome: PortOutcome)
        requires
            old(handles).wf(),
            old(port)@.reply matches Some(message) ==> old(handles)@.dom().len() + message_handles(
                message,
            ).len() <= 0x1_0000_0000,
        ensures
            final(handles).wf(),
            self.effect(
                request,
                (ReplyWorld { port: old(port)@, handles: old(handles)@ }),
                (ReplyWorld { port: final(port)@, handles: final(handles)@ }),
                outcome,
            ),
    {
        match request.method {
            Some(PortMethod::QueryState) => match self.require_method(
                PortMethod::QueryState,
                P_QUERY_STATE,
            ) {
                Err(error) => PortOutcome::Finished(Err(error)),
                Ok(()) => PortOutcome::Finished(Ok(IpcInvokeFrame::empty_ok())),
            },
            Some(PortMethod::Send) => {
                match self.require_method(PortMethod::Send, P_SEND_MSG) {
                    Err(error) => {
                        return PortOutcome::Finished(Err(error));
                    },
                    Ok(()) => {},
                }
                let input = match request.input {
                    None => {
                        return PortOutcome::Finished(
                            Ok(IpcInvokeFrame::ipc_error(IpcError::Fault)),
                        );
                    },
                    Some(input) => input,
                };
                let (message, transfer) = match into_message(input, handles) {
                    Err(error) => {
                        return Self::dispatch_user_error(error);
                    },
                    Ok(converted) => converted,
                };
                let ghost view = message@;
                let outcome = match port.send(message) {
                    ReplySend::Failed(error) => PortOutcome::Finished(
                        Ok(IpcInvokeFrame::ipc_error(error.ipc_error())),
                    ),
                    ReplySend::Full(_) => PortOutcome::Wait,
                    ReplySend::Sent => match transfer.commit(handles) {
                        Ok(()) => PortOutcome::Finished(Ok(IpcInvokeFrame::empty_ok())),
                        Err(error) => Self::dispatch_user_error(error),
                    },
                };
                proof {
                    let before = ReplyWorld { port: old(port)@, handles: old(handles)@ };
                    let after = ReplyWorld { port: port@, handles: handles@ };
                    assert(request.input == Some(input));
                    assert(marshalled(input, before.handles) == Ok::<
                        MessageView,
                        PortUserMessageError,
                    >(view));
                    assert(Self::send_effect(input, view, before, after, outcome));
                    assert(self.effect(request, before, after, outcome));
                }
                outcome
            },
            Some(PortMethod::Recv) => {
                match self.require_method(PortMethod::Recv, P_RECV_MSG) {
                    Err(error) => {
                        return PortOutcome::Finished(Err(error));
                    },
                    Ok(()) => {},
                }
                match port.try_recv() {
                    ReplyRecv::Empty => PortOutcome::Wait,
                    ReplyRecv::Closed => PortOutcome::Finished(
                        Ok(IpcInvokeFrame::ipc_error(IpcError::ReceiverClosed)),
                    ),
                    ReplyRecv::Received(message) => match request.desc {
                        None => PortOutcome::Finished(Ok(IpcInvokeFrame::ipc_error(IpcError::Fault))),
                        Some(desc) => {
                            let ghost view = message@;
                            let result = write_message(desc, handles, message, request.faults);
                            let ghost written = result;
                            let outcome = match result {
                                Ok(writes) => PortOutcome::Received(writes),
                                Err(error) => Self::dispatch_user_error(error),
                            };
                            proof {
                                let before = ReplyWorld {
                                    port: old(port)@,
                                    handles: old(handles)@,
                                };
                                let after = ReplyWorld { port: port@, handles: handles@ };
                                assert(before.port.reply == Some(view));
                                assert(write_effect(
                                    desc,
                                    view,
                                    request.faults,
                                    before.handles,
                                    after.handles,
                                    written,
                                ));
                                assert(self.effect(request, before, after, outcome));
                            }
                            outcome
                        },
                    },
                }
            },
            _ => PortOutcome::Finished(Ok(IpcInvokeFrame::ipc_error(IpcError::InvalidArgument))),
        }
    }

    fn dispatch_user_error(error: PortUserMessageError) -> (outcome: PortOutcome)
        ensures
            outcome == user_error(error),
    {
        match error.into_object_or_underlying() {
            Ok(error) => PortOutcome::Finished(Err(error)),
            Err(error) => PortOutcome::Finished(Ok(IpcInvokeFrame::ipc_error(error))),
        }
    }
}

} // verus!
