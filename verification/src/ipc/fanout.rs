//! Ports that deliver every message to all subscribers.

use super::inbox::{MailboxView, QueuedMessage, QueuedView};
use super::message::{Message, MessageView};
use super::port::{
    MailboxSet, PortBindError, PortKind, PortSendError, PortSendFailure, PortState, PortStats,
    Route, accepts, bumped, routed, send_result,
};
use crate::collections::IdTable;
use vstd::prelude::*;

verus! {

/// Fan-out port.
pub struct FanoutPort {
    pub id: u64,
    pub state: PortState,
    pub accepted: u64,
    pub failed: u64,
    /// Inbox of each subscribed process.
    pub subscribers: IdTable<u64>,
}

/// Delivery to one subscriber.
pub struct RouteMessage {
    pub route: Route,
    pub message: Message,
}

/// The routes to the subscribers, in the order in which the table is walked.
pub open spec fn routes(order: Seq<u64>, subscribers: Map<u64, u64>) -> Seq<Route> {
    order.map_values(|pid: u64| Route { pid, inbox: subscribers[pid] })
}

/// The mailboxes after the message has gone down the first `count` routes.
pub open spec fn fanned_out(
    boxes: Map<u64, MailboxView>,
    routes: Seq<Route>,
    queued: QueuedView,
    count: nat,
) -> Map<u64, MailboxView>
    decreases count,
{
    if count == 0 {
        boxes
    } else {
        routed(
            fanned_out(boxes, routes, queued, (count - 1) as nat),
            routes[count - 1].inbox,
            queued,
        )
    }
}

/// Whether the route at `at` is the first whose receiver is gone; `at` is past
/// the end where all receivers are there.
pub open spec fn first_gone(boxes: Map<u64, MailboxView>, routes: Seq<Route>, at: int) -> bool {
    &&& 0 <= at <= routes.len()
    &&& forall|i: int| 0 <= i < at ==> accepts(boxes, (#[trigger] routes[i]).inbox)
    &&& at < routes.len() ==> !accepts(boxes, routes[at].inbox)
}

/// Routing does not open or close any inbox.
pub proof fn lemma_fan_out_keeps_open(
    boxes: Map<u64, MailboxView>,
    routes: Seq<Route>,
    queued: QueuedView,
    count: nat,
    inbox: u64,
)
    requires
        count <= routes.len(),
        forall|i: int| 0 <= i < count ==> accepts(boxes, (#[trigger] routes[i]).inbox),
    ensures
        accepts(fanned_out(boxes, routes, queued, count), inbox) == accepts(boxes, inbox),
        fanned_out(boxes, routes, queued, count).dom() == boxes.dom(),
    decreases count,
{
    if count > 0 {
        lemma_fan_out_keeps_open(boxes, routes, queued, (count - 1) as nat, inbox);
        let prior = fanned_out(boxes, routes, queued, (count - 1) as nat);
        assert(accepts(boxes, routes[count - 1].inbox));
        assert(fanned_out(boxes, routes, queued, count).dom() =~= boxes.dom());
    }
}

impl FanoutPort {
    pub open spec fn wf(&self) -> bool {
        self.subscribers.wf()
    }

    pub open spec fn routes(&self) -> Seq<Route> {
        routes(self.subscribers.order(), self.subscribers@)
    }

    /// Everything but the failure counter is as before.
    pub open spec fn only_failed_once(before: FanoutPort, after: FanoutPort) -> bool {
        &&& after.id == before.id
        &&& after.state == before.state
        &&& after.accepted == before.accepted
        &&& after.failed == bumped(before.failed)
        &&& after.subscribers == before.subscribers
    }

    /// An open port without subscribers.
    pub fn new(id: u64) -> (port: Self)
        ensures
            port.wf(),
            port.id == id,
            port.state == PortState::Open,
            port.accepted == 0,
            port.failed == 0,
            port.subscribers@ == Map::<u64, u64>::empty(),
    {
        FanoutPort { id, state: PortState::Open, accepted: 0, failed: 0, subscribers: IdTable::new() }
    }

    pub fn stats(&self) -> (stats: PortStats)
        ensures
            stats == (PortStats { accepted: self.accepted, failed: self.failed }),
    {
        PortStats { accepted: self.accepted, failed: self.failed }
    }

    pub fn subscriber_count(&self) -> (count: usize)
        requires
            self.wf(),
        ensures
            count == self.subscribers@.dom().len(),
    {
        self.subscribers.len()
    }

    pub fn is_subscribed(&self, pid: u64) -> (subscribed: bool)
        requires
            self.wf(),
        ensures
            subscribed == self.subscribers@.dom().contains(pid),
    {
        self.subscribers.contains(pid)
    }

    /// Everything but the subscribers is as before.
    pub open spec fn same_but_subscribers(before: FanoutPort, after: FanoutPort) -> bool {
        &&& after.id == before.id
        &&& after.state == before.state
        &&& after.accepted == before.accepted
        &&& after.failed == before.failed
    }

    /// What a subscription comes to. A subscriber that is already there is told
    /// so, and its inbox is replaced all the same.
    pub open spec fn subscribe_effect(
        before: FanoutPort,
        route: Route,
        after: FanoutPort,
        result: Result<(), PortBindError>,
    ) -> bool {
        &&& Self::same_but_subscribers(before, after)
        &&& result == (if before.state != PortState::Open {
            Err::<(), PortBindError>(PortBindError::Closed)
        } else if before.subscribers@.dom().contains(route.pid) {
            Err::<(), PortBindError>(PortBindError::AlreadySubscribed)
        } else {
            Ok::<(), PortBindError>(())
        })
        &&& after.subscribers@ == (if before.state != PortState::Open {
            before.subscribers@
        } else {
            before.subscribers@.insert(route.pid, route.inbox)
        })
    }

    /// What the end of a subscription comes to.
    pub open spec fn unsubscribe_effect(
        before: FanoutPort,
        pid: u64,
        after: FanoutPort,
        result: Result<(), PortBindError>,
    ) -> bool {
        &&& Self::same_but_subscribers(before, after)
        &&& after.subscribers@ == before.subscribers@.remove(pid)
        &&& result == (if before.subscribers@.dom().contains(pid) {
            Ok::<(), PortBindError>(())
        } else {
            Err::<(), PortBindError>(PortBindError::NotSubscribed)
        })
    }

    /// Adds a subscriber.
    pub fn subscribe(&mut self, route: Route) -> (result: Result<(), PortBindError>)
        requires
            old(self).wf(),
        ensures
            final(self).wf(),
            Self::subscribe_effect(*old(self), route, *final(self), result),
    {
        if self.state != PortState::Open {
            return Err(PortBindError::Closed);
        }
        match self.subscribers.insert(route.pid, route.inbox) {
            Some(_) => Err(PortBindError::AlreadySubscribed),
            None => Ok(()),
        }
    }

    pub fn unsubscribe(&mut self, pid: u64) -> (result: Result<(), PortBindError>)
        requires
            old(self).wf(),
        ensures
            final(self).wf(),
            Self::unsubscribe_effect(*old(self), pid, *final(self), result),
    {
        match self.subscribers.remove(pid) {
            Some(_) => Ok(()),
            None => Err(PortBindError::NotSubscribed),
        }
    }

    /// Rejects all sends from now on.
    pub fn freeze(&mut self)
        ensures
            *final(self) == (FanoutPort { state: PortState::Frozen, ..*old(self) }),
    {
        self.state = PortState::Frozen;
    }

    /// Closes the port and lets go of all subscribers.
    pub fn close(&mut self)
        ensures
            final(self).wf(),
            final(self).state == PortState::Closed,
            final(self).subscribers@ == Map::<u64, u64>::empty(),
            final(self).id == old(self).id,
            final(self).accepted == old(self).accepted,
            final(self).failed == old(self).failed,
    {
        self.state = PortState::Closed;
        self.subscribers = IdTable::new();
    }

    /// Checks the port and the message and makes one copy for each subscriber.
    /// The last subscriber gets the message itself.
    pub fn validate_fanout(&mut self, message: Message) -> (result: Result<
        Vec<RouteMessage>,
        PortSendError,
    >)
        requires
            old(self).wf(),
        ensures
            final(self).wf(),
            match result {
                Ok(deliveries) => {
                    &&& old(self).state == PortState::Open
                    &&& message@.sendable()
                    &&& old(self).routes().len() > 1 ==> message@.clone_refusal() is None
                    &&& deliveries@.len() == old(self).routes().len()
                    &&& forall|i: int|
                        0 <= i < deliveries@.len() ==> (#[trigger] deliveries@[i]).route == old(self).routes()[i] && deliveries@[i].message@ == message@
                    &&& *final(self) == *old(self)
                },
                Err(error) => {
                    &&& Self::only_failed_once(*old(self), *final(self))
                    &&& if old(self).state != PortState::Open {
                        error@ == PortSendFailure::Closed(message@)
                    } else if !message@.sendable() {
                        &&& error@ matches PortSendFailure::InvalidMessage { message: back, reason }
                        &&& back == message@
                        &&& message@.validation(Err(reason))
                    } else {
                        &&& old(self).routes().len() > 1
                        &&& message@.clone_refusal() is Some
                        &&& error@ == PortSendFailure::CloneFailed {
                            message: message@,
                            error: message@.clone_refusal()->Some_0,
                        }
                    }
                },
            },
    {
        if self.state != PortState::Open {
            self.failed = self.failed.wrapping_add(1);
            return Err(PortSendError::Closed(message));
        }
        match message.validate() {
            Err(reason) => {
                self.failed = self.failed.wrapping_add(1);
                return Err(PortSendError::InvalidMessage { message, reason });
            },
            Ok(()) => {},
        }
        let count: usize = self.subscribers.len();
        let mut deliveries: Vec<RouteMessage> = Vec::new();
        if count == 0 {
            return Ok(deliveries);
        }
        let mut i: usize = 0;
        while i < count - 1
            invariant
                i <= count - 1,
                count == self.routes().len(),
                self.wf(),
                *self == *old(self),
                old(self).state == PortState::Open,
                message@.sendable(),
                i > 0 ==> message@.clone_refusal() is None,
                deliveries@.len() == i,
                forall|j: int|
                    0 <= j < i ==> (#[trigger] deliveries@[j]).route == self.routes()[j]
                        && deliveries@[j].message@ == message@,
            decreases count - i,
        {
            let copy = match message.try_clone_for_fanout() {
                Ok(copy) => copy,
                Err(error) => {
                    self.failed = self.failed.wrapping_add(1);
                    return Err(PortSendError::CloneFailed { message, error });
                },
            };
            let pid: u64 = self.subscribers.key_at(i);
            let inbox: u64 = *self.subscribers.value_at(i);
            deliveries.push(RouteMessage { route: Route { pid, inbox }, message: copy });
            i = i + 1;
        }
        let pid: u64 = self.subscribers.key_at(i);
        let inbox: u64 = *self.subscribers.value_at(i);
        deliveries.push(RouteMessage { route: Route { pid, inbox }, message });
        Ok(deliveries)
    }

    /// What a send to all subscribers comes to. Copies are made before anything
    /// is delivered. The first receiver that is gone ends the delivery, and its
    /// subscription.
    pub open spec fn send_effect(
        before: FanoutPort,
        boxes_before: Map<u64, MailboxView>,
        message: MessageView,
        after: FanoutPort,
        boxes_after: Map<u64, MailboxView>,
        result: Result<(), PortSendFailure>,
    ) -> bool {
        let routes = before.routes();
        let queued = QueuedView { port_id: before.id, message };
        if before.state != PortState::Open {
            &&& result == Err::<(), PortSendFailure>(PortSendFailure::Closed(message))
            &&& Self::only_failed_once(before, after)
            &&& boxes_after == boxes_before
        } else if !message.sendable() {
            &&& result matches Err(PortSendFailure::InvalidMessage { message: back, reason })
            &&& back == message
            &&& message.validation(Err(reason))
            &&& Self::only_failed_once(before, after)
            &&& boxes_after == boxes_before
        } else if routes.len() > 1 && message.clone_refusal() is Some {
            &&& result == Err::<(), PortSendFailure>(
                PortSendFailure::CloneFailed {
                    message,
                    error: message.clone_refusal()->Some_0,
                },
            )
            &&& Self::only_failed_once(before, after)
            &&& boxes_after == boxes_before
        } else {
            exists|gone: int| {
                &&& #[trigger] first_gone(boxes_before, routes, gone)
                &&& boxes_after == fanned_out(boxes_before, routes, queued, gone as nat)
                &&& after.id == before.id
                &&& after.state == before.state
                &&& if gone == routes.len() {
                    &&& result is Ok
                    &&& after.accepted == bumped(before.accepted)
                    &&& after.failed == before.failed
                    &&& after.subscribers == before.subscribers
                } else {
                    &&& result == Err::<(), PortSendFailure>(
                        PortSendFailure::ReceiverClosed(message),
                    )
                    &&& after.accepted == before.accepted
                    &&& after.failed == bumped(before.failed)
                    &&& after.subscribers@ == before.subscribers@.remove(routes[gone].pid)
                }
            }
        }
    }

    /// Sends a message to every subscriber.
    pub fn send(&mut self, boxes: &mut MailboxSet, message: Message) -> (result: Result<
        (),
        PortSendError,
    >)
        requires
            old(self).wf(),
            old(boxes).wf(),
        ensures
            final(self).wf(),
            final(boxes).wf(),
            Self::send_effect(
                *old(self),
                old(boxes)@,
                message@,
                *final(self),
                final(boxes)@,
                send_result(result),
            ),
    {
        let ghost view = message@;
        let ghost all = self.routes();
        let ghost queued = QueuedView { port_id: self.id, message: view };
        let mut deliveries = match self.validate_fanout(message) {
            Ok(deliveries) => deliveries,
            Err(error) => {
                return Err(error);
            },
        };
        let count: usize = deliveries.len();
        let mut sent: usize = 0;
        while sent < count
            invariant
                sent <= count,
                count == all.len(),
                deliveries@.len() == count - sent,
                all == old(self).routes(),
                queued == (QueuedView { port_id: old(self).id, message: view }),
                view == message@,
                *self == *old(self),
                self.wf(),
                boxes.wf(),
                old(self).state == PortState::Open,
                view.sendable(),
                all.len() > 1 ==> view.clone_refusal() is None,
                forall|i: int|
                    0 <= i < deliveries@.len() ==> (#[trigger] deliveries@[i]).route == all[sent
                        + i] && deliveries@[i].message@ == view,
                forall|i: int|
                    0 <= i < sent ==> accepts(old(boxes)@, (#[trigger] all[i]).inbox),
                boxes@ == fanned_out(old(boxes)@, all, queued, sent as nat),
            decreases count - sent,
        {
            let delivery = deliveries.remove(0);
            assert(delivery.route == all[sent as int]);
            proof {
                lemma_fan_out_keeps_open(
                    old(boxes)@,
                    all,
                    queued,
                    sent as nat,
                    delivery.route.inbox,
                );
            }
            match boxes.deliver(delivery.route.inbox, QueuedMessage::new(self.id, delivery.message)) {
                Ok(()) => {},
                Err(back) => {
                    let _ = self.unsubscribe(delivery.route.pid);
                    self.failed = self.failed.wrapping_add(1);
                    assert(first_gone(old(boxes)@, all, sent as int));
                    return Err(PortSendError::ReceiverClosed(back.into_message()));
                },
            }
            sent = sent + 1;
        }
        self.accepted = self.accepted.wrapping_add(1);
        assert(first_gone(old(boxes)@, all, count as int));
        Ok(())
    }
}

/// A receiver in front of the first that is gone gets the message at the end
/// of its stream for the port, provided that no two subscribers share an inbox.
pub proof fn law_fan_out_reaches_each(
    boxes: Map<u64, MailboxView>,
    routes: Seq<Route>,
    queued: QueuedView,
    count: nat,
    at: int,
)
    requires
        count <= routes.len(),
        0 <= at < routes.len(),
        forall|i: int| 0 <= i < count ==> accepts(boxes, (#[trigger] routes[i]).inbox),
        forall|i: int, j: int|
            0 <= i < j < routes.len() ==> (#[trigger] routes[i]).inbox != (
            #[trigger] routes[j]).inbox,
    ensures
        fanned_out(boxes, routes, queued, count)[routes[at].inbox].stream(queued.port_id) == (
        if at < count {
            boxes[routes[at].inbox].stream(queued.port_id).push(queued.message)
        } else {
            boxes[routes[at].inbox].stream(queued.port_id)
        }),
    decreases count,
{
    if count > 0 {
        law_fan_out_reaches_each(boxes, routes, queued, (count - 1) as nat, at);
        let prior = fanned_out(boxes, routes, queued, (count - 1) as nat);
        let inbox = routes[count - 1].inbox;
        if at == count - 1 {
            super::inbox::law_send_extends_stream(prior[inbox], queued, queued.port_id);
        } else {
            if at < count - 1 {
                assert(routes[at].inbox != routes[count - 1].inbox);
            } else {
                assert(routes[count - 1].inbox != routes[at].inbox);
            }
        }
    }
}

/// Fan-out port whose senders hold the send capability.
pub struct BroadcastPort {
    pub inner: FanoutPort,
}

impl BroadcastPort {
    pub fn new(id: u64) -> (port: Self)
        ensures
            port.inner.wf(),
            port.inner.id == id,
            port.inner.state == PortState::Open,
            port.inner.accepted == 0,
            port.inner.failed == 0,
            port.inner.subscribers@ == Map::<u64, u64>::empty(),
    {
        BroadcastPort { inner: FanoutPort::new(id) }
    }

    pub fn kind(&self) -> (kind: PortKind)
        ensures
            kind == PortKind::Broadcast,
    {
        PortKind::Broadcast
    }

    pub fn id(&self) -> (id: u64)
        ensures
            id == self.inner.id,
    {
        self.inner.id
    }

    pub fn state(&self) -> (state: PortState)
        ensures
            state == self.inner.state,
    {
        self.inner.state
    }

    pub fn stats(&self) -> (stats: PortStats)
        ensures
            stats == (PortStats { accepted: self.inner.accepted, failed: self.inner.failed }),
    {
        self.inner.stats()
    }

    pub fn subscriber_count(&self) -> (count: usize)
        requires
            self.inner.wf(),
        ensures
            count == self.inner.subscribers@.dom().len(),
    {
        self.inner.subscriber_count()
    }

    pub fn is_subscribed(&self, pid: u64) -> (subscribed: bool)
        requires
            self.inner.wf(),
        ensures
            subscribed == self.inner.subscribers@.dom().contains(pid),
    {
        self.inner.is_subscribed(pid)
    }

    /// Adds a subscriber.
    pub fn subscribe(&mut self, route: Route) -> (result: Result<(), PortBindError>)
        requires
            old(self).inner.wf(),
        ensures
            final(self).inner.wf(),
            FanoutPort::subscribe_effect(old(self).inner, route, final(self).inner, result),
    {
        self.inner.subscribe(route)
    }

    /// Takes a subscriber out.
    pub fn unsubscribe(&mut self, pid: u64) -> (result: Result<(), PortBindError>)
        requires
            old(self).inner.wf(),
        ensures
            final(self).inner.wf(),
            FanoutPort::unsubscribe_effect(old(self).inner, pid, final(self).inner, result),
    {
        self.inner.unsubscribe(pid)
    }

    /// Rejects all sends from now on.
    pub fn freeze(&mut self)
        ensures
            final(self).inner == (FanoutPort { state: PortState::Frozen, ..old(self).inner }),
    {
        self.inner.freeze();
    }

    /// Closes the port and lets go of all subscribers.
    pub fn close(&mut self)
        ensures
            final(self).inner.wf(),
            final(self).inner.state == PortState::Closed,
            final(self).inner.subscribers@ == Map::<u64, u64>::empty(),
            final(self).inner.id == old(self).inner.id,
            final(self).inner.accepted == old(self).inner.accepted,
            final(self).inner.failed == old(self).inner.failed,
    {
        self.inner.close();
    }

    /// Sends a message to every subscriber.
    pub fn send(&mut self, boxes: &mut MailboxSet, message: Message) -> (result: Result<
        (),
        PortSendError,
    >)
        requires
            old(self).inner.wf(),
            old(boxes).wf(),
        ensures
            final(self).inner.wf(),
            final(boxes).wf(),
            FanoutPort::send_effect(
                old(self).inner,
                old(boxes)@,
                message@,
                final(self).inner,
                final(boxes)@,
                send_result(result),
            ),
    {
        self.inner.send(boxes, message)
    }
}

/// Fan-out port with many publishers.
pub struct BusPort {
    pub inner: FanoutPort,
}

impl BusPort {
    pub fn new(id: u64) -> (port: Self)
        ensures
            port.inner.wf(),
            port.inner.id == id,
            port.inner.state == PortState::Open,
            port.inner.accepted == 0,
            port.inner.failed == 0,
            port.inner.subscribers@ == Map::<u64, u64>::empty(),
    {
        BusPort { inner: FanoutPort::new(id) }
    }

    pub fn kind(&self) -> (kind: PortKind)
        ensures
            kind == PortKind::Bus,
    {
        PortKind::Bus
    }

    pub fn id(&self) -> (id: u64)
        ensures
            id == self.inner.id,
    {
        self.inner.id
    }

    pub fn state(&self) -> (state: PortState)
        ensures
            state == self.inner.state,
    {
        self.inner.state
    }

    pub fn stats(&self) -> (stats: PortStats)
        ensures
            stats == (PortStats { accepted: self.inner.accepted, failed: self.inner.failed }),
    {
        self.inner.stats()
    }

    pub fn subscriber_count(&self) -> (count: usize)
        requires
            self.inner.wf(),
        ensures
            count == self.inner.subscribers@.dom().len(),
    {
        self.inner.subscriber_count()
    }

    pub fn is_subscribed(&self, pid: u64) -> (subscribed: bool)
        requires
            self.inner.wf(),
        ensures
            subscribed == self.inner.subscribers@.dom().contains(pid),
    {
        self.inner.is_subscribed(pid)
    }

    /// Adds a subscriber.
    pub fn subscribe(&mut self, route: Route) -> (result: Result<(), PortBindError>)
        requires
            old(self).inner.wf(),
        ensures
            final(self).inner.wf(),
            FanoutPort::subscribe_effect(old(self).inner, route, final(self).inner, result),
    {
        self.inner.subscribe(route)
    }

    /// Takes a subscriber out.
    pub fn unsubscribe(&mut self, pid: u64) -> (result: Result<(), PortBindError>)
        requires
            old(self).inner.wf(),
        ensures
            final(self).inner.wf(),
            FanoutPort::unsubscribe_effect(old(self).inner, pid, final(self).inner, result),
    {
        self.inner.unsubscribe(pid)
    }

    /// Rejects all sends from now on.
    pub fn freeze(&mut self)
        ensures
            final(self).inner == (FanoutPort { state: PortState::Frozen, ..old(self).inner }),
    {
        self.inner.freeze();
    }

    /// Closes the port and lets go of all subscribers.
    pub fn close(&mut self)
        ensures
            final(self).inner.wf(),
            final(self).inner.state == PortState::Closed,
            final(self).inner.subscribers@ == Map::<u64, u64>::empty(),
            final(self).inner.id == old(self).inner.id,
            final(self).inner.accepted == old(self).inner.accepted,
            final(self).inner.failed == old(self).inner.failed,
    {
        self.inner.close();
    }

    /// Publishes a message to every listener.
    pub fn publish(&mut self, boxes: &mut MailboxSet, message: Message) -> (result: Result<
        (),
        PortSendError,
    >)
        requires
            old(self).inner.wf(),
            old(boxes).wf(),
        ensures
            final(self).inner.wf(),
            final(boxes).wf(),
            FanoutPort::send_effect(
                old(self).inner,
                old(boxes)@,
                message@,
                final(self).inner,
                final(boxes)@,
                send_result(result),
            ),
    {
        self.inner.send(boxes, message)
    }
}

} // verus!
