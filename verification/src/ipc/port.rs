//! Ports: one receiver, or many.

use super::frame::IpcError;
use super::inbox::{Mailbox, MailboxView, QueuedMessage, QueuedView, TryRecv};
use super::message::{Message, MessageValidationError, MessageView};
use super::user::into_message;
use crate::collections::IdTable;
use crate::object::ObjectError;
use vstd::prelude::*;

verus! {

/// How a port distributes its messages.
#[derive(Debug, Clone, Copy, PartialEq, Eq, Structural)]
pub enum PortKind {
    Unicast,
    Broadcast,
    Bus,
}

impl PortKind {
    pub open spec fn number(self) -> usize {
        match self {
            PortKind::Unicast => 0,
            PortKind::Broadcast => 1,
            PortKind::Bus => 2,
        }
    }

    pub fn as_usize(self) -> (number: usize)
        ensures
            number == self.number(),
    {
        match self {
            PortKind::Unicast => 0,
            PortKind::Broadcast => 1,
            PortKind::Bus => 2,
        }
    }
}

/// Lifecycle state of a port.
#[derive(Debug, Clone, Copy, PartialEq, Eq, Structural)]
pub enum PortState {
    Open,
    Frozen,
    Closed,
}

impl PortState {
    pub open spec fn number(self) -> u8 {
        match self {
            PortState::Open => 0,
            PortState::Frozen => 1,
            PortState::Closed => 2,
        }
    }

    pub fn as_u8(self) -> (number: u8)
        ensures
            number == self.number(),
    {
        match self {
            PortState::Open => 0,
            PortState::Frozen => 1,
            PortState::Closed => 2,
        }
    }

    /// The state with the given number; any other number means closed.
    pub fn from_u8(value: u8) -> (state: Self)
        ensures
            value <= 2 ==> state.number() == value,
            value > 2 ==> state == PortState::Closed,
    {
        match value {
            0 => PortState::Open,
            1 => PortState::Frozen,
            _ => PortState::Closed,
        }
    }
}

/// Every state survives its encoding.
pub proof fn law_state_numbers_are_distinct(a: PortState, b: PortState)
    ensures
        a.number() == b.number() ==> a == b,
{
}

/// Delivery counters of a port.
#[derive(Debug, Clone, Copy, PartialEq, Eq, Structural)]
pub struct PortStats {
    pub accepted: u64,
    pub failed: u64,
}

/// Why a receiver could not be wired to a port.
#[derive(Debug, Clone, Copy, PartialEq, Eq, Structural)]
pub enum PortBindError {
    AlreadyBound,
    AlreadySubscribed,
    NotSubscribed,
    Closed,
}

impl PortBindError {
    pub open spec fn ipc(self) -> IpcError {
        match self {
            PortBindError::AlreadyBound => IpcError::AlreadyBound,
            PortBindError::AlreadySubscribed => IpcError::AlreadySubscribed,
            PortBindError::NotSubscribed => IpcError::NotSubscribed,
            PortBindError::Closed => IpcError::PortClosed,
        }
    }

    pub fn ipc_error(self) -> (error: IpcError)
        ensures
            error == self.ipc(),
    {
        match self {
            PortBindError::AlreadyBound => IpcError::AlreadyBound,
            PortBindError::AlreadySubscribed => IpcError::AlreadySubscribed,
            PortBindError::NotSubscribed => IpcError::NotSubscribed,
            PortBindError::Closed => IpcError::PortClosed,
        }
    }
}

/// Why a message was not delivered. The message comes back.
pub enum PortSendError {
    Unbound(Message),
    Closed(Message),
    ReceiverClosed(Message),
    CloneFailed { message: Message, error: ObjectError },
    InvalidMessage { message: Message, reason: MessageValidationError },
}

/// Contents of a delivery failure.
#[verifier::ext_equal]
pub enum PortSendFailure {
    Unbound(MessageView),
    Closed(MessageView),
    ReceiverClosed(MessageView),
    CloneFailed { message: MessageView, error: ObjectError },
    InvalidMessage { message: MessageView, reason: MessageValidationError },
}

impl View for PortSendError {
    type V = PortSendFailure;

    open spec fn view(&self) -> PortSendFailure {
        match *self {
            PortSendError::Unbound(message) => PortSendFailure::Unbound(message@),
            PortSendError::Closed(message) => PortSendFailure::Closed(message@),
            PortSendError::ReceiverClosed(message) => PortSendFailure::ReceiverClosed(message@),
            PortSendError::CloneFailed { message, error } => PortSendFailure::CloneFailed {
                message: message@,
                error,
            },
            PortSendError::InvalidMessage { message, reason } => PortSendFailure::InvalidMessage {
                message: message@,
                reason,
            },
        }
    }
}

impl PortSendFailure {
    pub open spec fn ipc(self) -> IpcError {
        match self {
            PortSendFailure::Unbound(_) => IpcError::Unbound,
            PortSendFailure::Closed(_) => IpcError::PortClosed,
            PortSendFailure::ReceiverClosed(_) => IpcError::ReceiverClosed,
            PortSendFailure::CloneFailed { .. } => IpcError::InvalidMessage,
            PortSendFailure::InvalidMessage { .. } => IpcError::InvalidMessage,
        }
    }
}

impl PortSendError {
    pub fn ipc_error(self) -> (error: IpcError)
        ensures
            error == self@.ipc(),
    {
        match self {
            PortSendError::Unbound(_) => IpcError::Unbound,
            PortSendError::Closed(_) => IpcError::PortClosed,
            PortSendError::ReceiverClosed(_) => IpcError::ReceiverClosed,
            PortSendError::CloneFailed { .. } => IpcError::InvalidMessage,
            PortSendError::InvalidMessage { .. } => IpcError::InvalidMessage,
        }
    }
}

/// The outcome of a send, by contents.
pub open spec fn send_result(result: Result<(), PortSendError>) -> Result<(), PortSendFailure> {
    match result {
        Ok(()) => Ok(()),
        Err(error) => Err(error@),
    }
}

/// Receiving process and its inbox.
#[derive(Debug, Clone, Copy, PartialEq, Eq, Structural)]
pub struct Route {
    pub pid: u64,
    pub inbox: u64,
}

/// Counter that wraps around after its largest value.
pub open spec fn bumped(counter: u64) -> u64 {
    if counter == u64::MAX {
        0
    } else {
        (counter + 1) as u64
    }
}

fn bump(counter: u64) -> (next: u64)
    ensures
        next == bumped(counter),
{
    counter.wrapping_add(1)
}

/// The mailboxes of all processes, by inbox.
pub struct MailboxSet {
    boxes: IdTable<Mailbox>,
}

impl View for MailboxSet {
    type V = Map<u64, MailboxView>;

    closed spec fn view(&self) -> Map<u64, MailboxView> {
        Map::new(|inbox: u64| self.boxes@.dom().contains(inbox), |inbox: u64| self.boxes@[inbox]@)
    }
}

/// Whether the inbox still accepts messages. One that is gone does not.
pub open spec fn accepts(boxes: Map<u64, MailboxView>, inbox: u64) -> bool {
    boxes.dom().contains(inbox) && boxes[inbox].open
}

/// The mailboxes after a message has been routed into an inbox.
pub open spec fn routed(boxes: Map<u64, MailboxView>, inbox: u64, queued: QueuedView) -> Map<
    u64,
    MailboxView,
> {
    boxes.insert(
        inbox,
        MailboxView { inbox: boxes[inbox].inbox.push(queued), ..boxes[inbox] },
    )
}

impl MailboxSet {
    pub closed spec fn wf(&self) -> bool {
        &&& self.boxes.wf()
        &&& forall|inbox: u64| #[trigger]
            self.boxes@.dom().contains(inbox) ==> self.boxes@[inbox].wf()
    }

    pub fn new() -> (set: Self)
        ensures
            set.wf(),
            set@ == Map::<u64, MailboxView>::empty(),
    {
        let set = MailboxSet { boxes: IdTable::new() };
        assert(set@ =~= Map::<u64, MailboxView>::empty());
        set
    }

    /// Adds an empty, open mailbox in place of whatever was there.
    pub fn open_mailbox(&mut self, inbox: u64)
        requires
            old(self).wf(),
        ensures
            final(self).wf(),
            final(self)@ == old(self)@.insert(
                inbox,
                MailboxView {
                    inbox: Seq::<QueuedView>::empty(),
                    open: true,
                    pending: Map::<u64, Seq<MessageView>>::empty(),
                },
            ),
    {
        let _ = self.boxes.insert(inbox, Mailbox::new());
        assert(self@ =~= old(self)@.insert(inbox, self@[inbox]));
    }

    /// Closes a mailbox: nothing more is accepted.
    pub fn close_mailbox(&mut self, inbox: u64)
        requires
            old(self).wf(),
        ensures
            final(self).wf(),
            final(self)@ == (if old(self)@.dom().contains(inbox) {
                old(self)@.insert(inbox, (MailboxView { open: false, ..old(self)@[inbox] }))
            } else {
                old(self)@
            }),
    {
        match self.boxes.remove(inbox) {
            Some(mailbox) => {
                let mut mailbox = mailbox;
                mailbox.close();
                let _ = self.boxes.insert(inbox, mailbox);
                assert(self@ =~= old(self)@.insert(inbox, self@[inbox]));
            },
            None => {
                assert(self@ =~= old(self)@);
            },
        }
    }

    /// Routes a message into an inbox, or hands it back.
    pub fn deliver(&mut self, inbox: u64, queued: QueuedMessage) -> (result: Result<(), QueuedMessage>)
        requires
            old(self).wf(),
        ensures
            final(self).wf(),
            result is Ok <==> accepts(old(self)@, inbox),
            match result {
                Ok(()) => final(self)@ == routed(old(self)@, inbox, queued@),
                Err(back) => back@ == queued@ && final(self)@ == old(self)@,
            },
    {
        let ghost view = queued@;
        match self.boxes.remove(inbox) {
            Some(mailbox) => {
                let mut mailbox = mailbox;
                let result = mailbox.send(queued);
                let _ = self.boxes.insert(inbox, mailbox);
                proof {
                    if result is Ok {
                        assert(self@ =~= routed(old(self)@, inbox, view));
                    } else {
                        assert(self@ =~= old(self)@);
                    }
                }
                result
            },
            None => {
                assert(self@ =~= old(self)@);
                Err(queued)
            },
        }
    }

    /// Receives the next message for a port from an inbox, without waiting. An
    /// inbox that is gone counts as closed.
    pub fn try_recv(&mut self, inbox: u64, port_id: u64) -> (received: TryRecv)
        requires
            old(self).wf(),
        ensures
            final(self).wf(),
            final(self)@.dom() == old(self)@.dom(),
            forall|other: u64| #[trigger]
                old(self)@.dom().contains(other) && other != inbox ==> final(self)@[other] == old(self)@[other],
            old(self)@.dom().contains(inbox) ==> final(self)@[inbox].open == old(self)@[inbox].open
                && forall|port: u64|
                port != port_id ==> #[trigger] final(self)@[inbox].stream(port) == old(self)@[inbox].stream(port),
            match received {
                TryRecv::Message(message) => {
                    &&& old(self)@.dom().contains(inbox)
                    &&& old(self)@[inbox].stream(port_id).len() > 0
                    &&& message@ == old(self)@[inbox].stream(port_id)[0]
                    &&& final(self)@[inbox].stream(port_id) == old(self)@[inbox].stream(
                        port_id,
                    ).skip(1)
                },
                TryRecv::Empty => {
                    &&& accepts(old(self)@, inbox)
                    &&& old(self)@[inbox].stream(port_id).len() == 0
                    &&& final(self)@[inbox].stream(port_id) == old(self)@[inbox].stream(port_id)
                },
                TryRecv::Closed => {
                    &&& !accepts(old(self)@, inbox)
                    &&& old(self)@.dom().contains(inbox) ==> old(self)@[inbox].stream(port_id).len()
                        == 0 && final(self)@[inbox].stream(port_id) == old(self)@[inbox].stream(
                        port_id,
                    )
                },
            },
    {
        match self.boxes.remove(inbox) {
            Some(mailbox) => {
                let mut mailbox = mailbox;
                let received = mailbox.try_recv_message(port_id);
                let _ = self.boxes.insert(inbox, mailbox);
                assert(self@.dom() =~= old(self)@.dom());
                received
            },
            None => {
                assert(self@ =~= old(self)@);
                TryRecv::Closed
            },
        }
    }
}

/// Port with many senders and one receiver.
#[derive(Debug, Clone, Copy, PartialEq, Eq, Structural)]
pub struct UnicastPort {
    pub id: u64,
    pub state: PortState,
    pub accepted: u64,
    pub failed: u64,
    pub receiver: Option<Route>,
}

impl UnicastPort {
    /// An open port without a receiver.
    pub fn new(id: u64) -> (port: Self)
        ensures
            port == (UnicastPort {
                id,
                state: PortState::Open,
                accepted: 0,
                failed: 0,
                receiver: None,
            }),
    {
        UnicastPort { id, state: PortState::Open, accepted: 0, failed: 0, receiver: None }
    }

    pub fn kind(&self) -> (kind: PortKind)
        ensures
            kind == PortKind::Unicast,
    {
        PortKind::Unicast
    }

    pub fn stats(&self) -> (stats: PortStats)
        ensures
            stats == (PortStats { accepted: self.accepted, failed: self.failed }),
    {
        PortStats { accepted: self.accepted, failed: self.failed }
    }

    pub fn id(&self) -> (id: u64)
        ensures
            id == self.id,
    {
        self.id
    }

    pub fn state(&self) -> (state: PortState)
        ensures
            state == self.state,
    {
        self.state
    }

    pub fn receiver_pid(&self) -> (pid: Option<u64>)
        ensures
            pid == (match self.receiver {
                Some(route) => Some(route.pid),
                None => None,
            }),
    {
        match self.receiver {
            Some(route) => Some(route.pid),
            None => None,
        }
    }

    /// Binds the port to its first receiver.
    pub fn bind_receiver(&mut self, route: Route) -> (result: Result<(), PortBindError>)
        ensures
            result == (if old(self).state != PortState::Open {
                Err::<(), PortBindError>(PortBindError::Closed)
            } else if old(self).receiver is Some {
                Err::<(), PortBindError>(PortBindError::AlreadyBound)
            } else {
                Ok::<(), PortBindError>(())
            }),
            *final(self) == (if result is Ok {
                UnicastPort { receiver: Some(route), ..*old(self) }
            } else {
                *old(self)
            }),
    {
        if self.state != PortState::Open {
            return Err(PortBindError::Closed);
        }
        if self.receiver.is_some() {
            return Err(PortBindError::AlreadyBound);
        }
        self.receiver = Some(route);
        Ok(())
    }

    /// Replaces the receiver.
    pub fn rebind_receiver(&mut self, route: Route) -> (result: Result<(), PortBindError>)
        ensures
            result == (if old(self).state != PortState::Open {
                Err::<(), PortBindError>(PortBindError::Closed)
            } else {
                Ok::<(), PortBindError>(())
            }),
            *final(self) == (if result is Ok {
                UnicastPort { receiver: Some(route), ..*old(self) }
            } else {
                *old(self)
            }),
    {
        if self.state != PortState::Open {
            return Err(PortBindError::Closed);
        }
        self.receiver = Some(route);
        Ok(())
    }

    /// Rejects all sends from now on.
    pub fn freeze(&mut self)
        ensures
            *final(self) == (UnicastPort { state: PortState::Frozen, ..*old(self) }),
    {
        self.state = PortState::Frozen;
    }

    /// Closes the port and lets go of its receiver.
    pub fn close(&mut self)
        ensures
            *final(self) == (UnicastPort {
                state: PortState::Closed,
                receiver: None,
                ..*old(self)
            }),
    {
        self.state = PortState::Closed;
        self.receiver = None;
    }

    /// What a send through the port comes to. A port that is not open refuses
    /// first, then a message that may not travel, then a port without receiver,
    /// then a receiver that is gone.
    pub open spec fn send_effect(
        before: UnicastPort,
        boxes_before: Map<u64, MailboxView>,
        message: MessageView,
        after: UnicastPort,
        boxes_after: Map<u64, MailboxView>,
        result: Result<(), PortSendFailure>,
    ) -> bool {
        let failed = UnicastPort { failed: bumped(before.failed), ..before };
        if before.state != PortState::Open {
            &&& result == Err::<(), PortSendFailure>(PortSendFailure::Closed(message))
            &&& after == failed
            &&& boxes_after == boxes_before
        } else if !message.sendable() {
            &&& result matches Err(PortSendFailure::InvalidMessage { message: back, reason })
            &&& back == message
            &&& message.validation(Err(reason))
            &&& after == failed
            &&& boxes_after == boxes_before
        } else {
            match before.receiver {
                None => {
                    &&& result == Err::<(), PortSendFailure>(PortSendFailure::Unbound(message))
                    &&& after == failed
                    &&& boxes_after == boxes_before
                },
                Some(route) => if accepts(boxes_before, route.inbox) {
                    &&& result is Ok
                    &&& after == (UnicastPort { accepted: bumped(before.accepted), ..before })
                    &&& boxes_after == routed(
                        boxes_before,
                        route.inbox,
                        (QueuedView { port_id: before.id, message }),
                    )
                } else {
                    &&& result == Err::<(), PortSendFailure>(
                        PortSendFailure::ReceiverClosed(message),
                    )
                    &&& after == failed
                    &&& boxes_after == boxes_before
                },
            }
        }
    }

    /// Checks the port and the message and finds the route.
    fn prepare_route(&mut self, message: Message) -> (result: Result<
        (Route, Message),
        PortSendError,
    >)
        ensures
            match result {
                Ok((route, back)) => {
                    &&& back@ == message@
                    &&& old(self).state == PortState::Open
                    &&& message@.sendable()
                    &&& old(self).receiver == Some(route)
                    &&& *final(self) == *old(self)
                },
                Err(error) => {
                    &&& *final(self) == (UnicastPort {
                        failed: bumped(old(self).failed),
                        ..*old(self)
                    })
                    &&& if old(self).state != PortState::Open {
                        error@ == PortSendFailure::Closed(message@)
                    } else if !message@.sendable() {
                        &&& error@ matches PortSendFailure::InvalidMessage { message: back, reason }
                        &&& back == message@
                        &&& message@.validation(Err(reason))
                    } else {
                        &&& old(self).receiver is None
                        &&& error@ == PortSendFailure::Unbound(message@)
                    }
                },
            },
    {
        if self.state != PortState::Open {
            self.failed = bump(self.failed);
            return Err(PortSendError::Closed(message));
        }
        match message.validate() {
            Err(reason) => {
                self.failed = bump(self.failed);
                return Err(PortSendError::InvalidMessage { message, reason });
            },
            Ok(()) => {},
        }
        match self.receiver {
            None => {
                self.failed = bump(self.failed);
                Err(PortSendError::Unbound(message))
            },
            Some(route) => Ok((route, message)),
        }
    }

    /// Sends a message to the receiver.
    pub fn send(&mut self, boxes: &mut MailboxSet, message: Message) -> (result: Result<
        (),
        PortSendError,
    >)
        requires
            old(boxes).wf(),
        ensures
            final(boxes).wf(),
            Self::send_effect(
                *old(self),
                old(boxes)@,
                message@,
                *final(self),
                final(boxes)@,
                send_result(result),
            ),
    {
        let (route, message) = match self.prepare_route(message) {
            Ok(prepared) => prepared,
            Err(error) => {
                return Err(error);
            },
        };
        match boxes.deliver(route.inbox, QueuedMessage::new(self.id, message)) {
            Ok(()) => {
                self.accepted = bump(self.accepted);
                Ok(())
            },
            Err(queued) => {
                self.failed = bump(self.failed);
                Err(PortSendError::ReceiverClosed(queued.into_message()))
            },
        }
    }
}

/// A send through an open, bound port whose receiver is there puts the message
/// at the end of the receiver's stream for this port.
pub proof fn law_unicast_send_reaches_receiver(
    before: UnicastPort,
    boxes_before: Map<u64, MailboxView>,
    message: MessageView,
    after: UnicastPort,
    boxes_after: Map<u64, MailboxView>,
    result: Result<(), PortSendFailure>,
)
    requires
        UnicastPort::send_effect(before, boxes_before, message, after, boxes_after, result),
        before.state == PortState::Open,
        message.sendable(),
        before.receiver is Some,
        accepts(boxes_before, before.receiver->Some_0.inbox),
    ensures
        result is Ok,
        boxes_after[before.receiver->Some_0.inbox].stream(before.id)
            == boxes_before[before.receiver->Some_0.inbox].stream(before.id).push(message),
{
    let inbox = before.receiver->Some_0.inbox;
    super::inbox::law_send_extends_stream(
        boxes_before[inbox],
        QueuedView { port_id: before.id, message },
        before.id,
    );
}

/// A refused send delivers nothing and counts as one failure.
pub proof fn law_unicast_refusal_delivers_nothing(
    before: UnicastPort,
    boxes_before: Map<u64, MailboxView>,
    message: MessageView,
    after: UnicastPort,
    boxes_after: Map<u64, MailboxView>,
    result: Result<(), PortSendFailure>,
)
    requires
        UnicastPort::send_effect(before, boxes_before, message, after, boxes_after, result),
        result is Err,
    ensures
        boxes_after == boxes_before,
        after == (UnicastPort { failed: bumped(before.failed), ..before }),
{
}

/// What keeps a receiver from being wired, and a message from being delivered, is
/// told under its own name. A message that cannot be cloned or sent is not valid.
pub proof fn law_port_errors_are_told(bind: PortBindError, send: PortSendFailure)
    ensures
        bind.ipc() is AlreadyBound <==> bind is AlreadyBound,
        bind.ipc() is AlreadySubscribed <==> bind is AlreadySubscribed,
        bind.ipc() is NotSubscribed <==> bind is NotSubscribed,
        bind.ipc() is PortClosed <==> bind is Closed,
        send.ipc() is Unbound <==> send is Unbound,
        send.ipc() is PortClosed <==> send is Closed,
        send.ipc() is ReceiverClosed <==> send is ReceiverClosed,
        send.ipc() is InvalidMessage <==> send is CloneFailed || send is InvalidMessage,
{
}

} // verus!
