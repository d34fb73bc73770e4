//! Process mailboxes: the inbox that ports route into, and the messages set
//! aside for ports that nobody is reading right now.

use super::message::{Message, MessageView};
use crate::collections::IdTable;
use vstd::prelude::*;

verus! {

/// Message routed to a port of the destination process.
pub struct QueuedMessage {
    port_id: u64,
    message: Message,
}

/// Port and contents of a queued message.
#[verifier::ext_equal]
pub struct QueuedView {
    pub port_id: u64,
    pub message: MessageView,
}

impl View for QueuedMessage {
    type V = QueuedView;

    closed spec fn view(&self) -> QueuedView {
        QueuedView { port_id: self.port_id, message: self.message@ }
    }
}

impl QueuedMessage {
    pub fn new(port_id: u64, message: Message) -> (queued: Self)
        ensures
            queued@ == (QueuedView { port_id, message: message@ }),
    {
        QueuedMessage { port_id, message }
    }

    pub fn port_id(&self) -> (port_id: u64)
        ensures
            port_id == self@.port_id,
    {
        self.port_id
    }

    pub fn into_message(self) -> (message: Message)
        ensures
            message@ == self@.message,
    {
        self.message
    }
}

/// The messages of a queue that are meant for `port_id`, in order.
pub open spec fn for_port(queue: Seq<QueuedView>, port_id: u64) -> Seq<MessageView>
    decreases queue.len(),
{
    if queue.len() == 0 {
        Seq::empty()
    } else if queue[0].port_id == port_id {
        seq![queue[0].message] + for_port(queue.skip(1), port_id)
    } else {
        for_port(queue.skip(1), port_id)
    }
}

/// Appending to a queue appends to the stream of that port alone.
proof fn lemma_for_port_push(queue: Seq<QueuedView>, last: QueuedView, port_id: u64)
    ensures
        for_port(queue.push(last), port_id) == (if last.port_id == port_id {
            for_port(queue, port_id).push(last.message)
        } else {
            for_port(queue, port_id)
        }),
    decreases queue.len(),
{
    let longer = queue.push(last);
    if queue.len() == 0 {
        assert(longer.skip(1) =~= Seq::<QueuedView>::empty());
        assert(for_port(longer.skip(1), port_id) =~= Seq::<MessageView>::empty());
        assert(for_port(longer, port_id) =~= (if last.port_id == port_id {
            for_port(queue, port_id).push(last.message)
        } else {
            for_port(queue, port_id)
        }));
    } else {
        lemma_for_port_push(queue.skip(1), last, port_id);
        assert(longer.skip(1) =~= queue.skip(1).push(last));
        assert(longer[0] == queue[0]);
        assert(for_port(longer, port_id) =~= (if last.port_id == port_id {
            for_port(queue, port_id).push(last.message)
        } else {
            for_port(queue, port_id)
        }));
    }
}

/// Mailbox of one process.
pub struct Mailbox {
    inbox: Vec<QueuedMessage>,
    open: bool,
    pending: IdTable<Vec<Message>>,
}

/// Contents of a mailbox.
#[verifier::ext_equal]
pub struct MailboxView {
    pub inbox: Seq<QueuedView>,
    pub open: bool,
    pub pending: Map<u64, Seq<MessageView>>,
}

/// The contents of a list of messages.
pub open spec fn message_views(messages: Seq<Message>) -> Seq<MessageView> {
    messages.map_values(|message: Message| message@)
}

impl MailboxView {
    /// The messages that were set aside for a port.
    pub open spec fn set_aside(self, port_id: u64) -> Seq<MessageView> {
        if self.pending.dom().contains(port_id) {
            self.pending[port_id]
        } else {
            Seq::empty()
        }
    }

    /// Everything that waits for a port, in the order in which it was sent.
    pub open spec fn stream(self, port_id: u64) -> Seq<MessageView> {
        self.set_aside(port_id) + for_port(self.inbox, port_id)
    }
}

impl View for Mailbox {
    type V = MailboxView;

    closed spec fn view(&self) -> MailboxView {
        MailboxView {
            inbox: self.inbox@.map_values(|queued: QueuedMessage| queued@),
            open: self.open,
            pending: Map::new(
                |port_id: u64| self.pending@.dom().contains(port_id),
                |port_id: u64| message_views(self.pending@[port_id]@),
            ),
        }
    }
}

/// What a receive without waiting comes to.
pub enum TryRecv {
    Message(Message),
    /// Nothing is there yet.
    Empty,
    /// Nothing is there and nothing will come.
    Closed,
}

impl Mailbox {
    /// No empty list is kept for a port.
    pub closed spec fn wf(&self) -> bool {
        &&& self.pending.wf()
        &&& forall|port_id: u64| #[trigger]
            self.pending@.dom().contains(port_id) ==> self.pending@[port_id]@.len() > 0
    }

    pub fn new() -> (mailbox: Self)
        ensures
            mailbox.wf(),
            mailbox@.inbox == Seq::<QueuedView>::empty(),
            mailbox@.open,
            mailbox@.pending == Map::<u64, Seq<MessageView>>::empty(),
    {
        let mailbox = Mailbox { inbox: Vec::new(), open: true, pending: IdTable::new() };
        assert(mailbox@.inbox =~= Seq::<QueuedView>::empty());
        assert(mailbox@.pending =~= Map::<u64, Seq<MessageView>>::empty());
        mailbox
    }

    pub fn is_open(&self) -> (open: bool)
        ensures
            open == self@.open,
    {
        self.open
    }

    /// Closes the receiving side; what was routed stays.
    pub fn close(&mut self)
        requires
            old(self).wf(),
        ensures
            final(self).wf(),
            final(self)@ == (MailboxView { open: false, ..old(self)@ }),
    {
        self.open = false;
    }

    /// Routes a message into the inbox; a closed inbox hands it back.
    pub fn send(&mut self, queued: QueuedMessage) -> (result: Result<(), QueuedMessage>)
        requires
            old(self).wf(),
        ensures
            final(self).wf(),
            match result {
                Ok(()) => old(self)@.open && final(self)@ == (MailboxView {
                    inbox: old(self)@.inbox.push(queued@),
                    ..old(self)@
                }),
                Err(back) => !old(self)@.open && back@ == queued@ && final(self)@ == old(self)@,
            },
    {
        if !self.open {
            return Err(queued);
        }
        let ghost view = queued@;
        self.inbox.push(queued);
        assert(self@.inbox =~= old(self)@.inbox.push(view));
        Ok(())
    }

    /// The oldest message set aside for a port.
    pub fn pop_pending_message(&mut self, port_id: u64) -> (message: Option<Message>)
        requires
            old(self).wf(),
        ensures
            final(self).wf(),
            final(self)@.inbox == old(self)@.inbox,
            final(self)@.open == old(self)@.open,
            match message {
                Some(first) => {
                    let list = old(self)@.set_aside(port_id);
                    &&& list.len() > 0
                    &&& first@ == list[0]
                    &&& final(self)@.set_aside(port_id) == list.skip(1)
                },
                None => old(self)@.set_aside(port_id).len() == 0 && final(self)@ == old(self)@,
            },
            forall|other: u64|
                other != port_id ==> #[trigger] final(self)@.set_aside(other) == old(self)@.set_aside(other),
    {
        match self.pending.remove(port_id) {
            None => {
                proof {
                    assert(self.pending@ =~= old(self).pending@);
                    assert(self@.pending =~= old(self)@.pending);
                }
                None
            },
            Some(list) => {
                let mut list = list;
                let ghost before = list@;
                let first = list.remove(0);
                let more = list.len() > 0;
                if more {
                    let _ = self.pending.insert(port_id, list);
                }
                proof {
                    assert(message_views(list@) =~= message_views(before).skip(1));
                    assert(message_views(before)[0] == first@);
                    assert(old(self)@.set_aside(port_id) == message_views(before));
                    if !more {
                        assert(message_views(before).skip(1) =~= Seq::<MessageView>::empty());
                    }
                    assert forall|other: u64| other != port_id implies #[trigger] self@.set_aside(
                        other,
                    ) == old(self)@.set_aside(other) by {
                        assert(self.pending@.dom().contains(other) == old(self).pending@.dom().contains(other));
                    }
                }
                Some(first)
            },
        }
    }

    /// Sets a message aside until its port is read.
    pub fn push_pending_message(&mut self, queued: QueuedMessage)
        requires
            old(self).wf(),
        ensures
            final(self).wf(),
            final(self)@.inbox == old(self)@.inbox,
            final(self)@.open == old(self)@.open,
            final(self)@.set_aside(queued@.port_id) == old(self)@.set_aside(queued@.port_id).push(
                queued@.message,
            ),
            forall|other: u64|
                other != queued@.port_id ==> #[trigger] final(self)@.set_aside(other) == old(self)@.set_aside(other),
    {
        let port_id: u64 = queued.port_id();
        let ghost view = queued@.message;
        let mut list: Vec<Message> = match self.pending.remove(port_id) {
            Some(list) => list,
            None => Vec::new(),
        };
        let ghost before = list@;
        list.push(queued.into_message());
        let ghost after = list@;
        let _ = self.pending.insert(port_id, list);
        proof {
            assert(message_views(after) =~= message_views(before).push(view));
            assert(old(self)@.set_aside(port_id) =~= message_views(before));
            assert forall|other: u64| other != port_id implies #[trigger] self@.set_aside(other)
                == old(self)@.set_aside(other) by {
                assert(self.pending@.dom().contains(other) == old(self).pending@.dom().contains(
                    other,
                ));
            }
        }
    }

    /// Receives the next message for a port without waiting.
    ///
    /// Messages for other ports that come first are set aside, so each port
    /// sees its own messages in the order in which they were sent and none is
    /// lost.
    pub fn try_recv_message(&mut self, port_id: u64) -> (received: TryRecv)
        requires
            old(self).wf(),
        ensures
            final(self).wf(),
            final(self)@.open == old(self)@.open,
            match received {
                TryRecv::Message(message) => {
                    &&& old(self)@.stream(port_id).len() > 0
                    &&& message@ == old(self)@.stream(port_id)[0]
                    &&& final(self)@.stream(port_id) == old(self)@.stream(port_id).skip(1)
                },
                TryRecv::Empty => {
                    &&& old(self)@.stream(port_id).len() == 0
                    &&& old(self)@.open
                    &&& final(self)@.stream(port_id) == old(self)@.stream(port_id)
                },
                TryRecv::Closed => {
                    &&& old(self)@.stream(port_id).len() == 0
                    &&& !old(self)@.open
                    &&& final(self)@.stream(port_id) == old(self)@.stream(port_id)
                },
            },
            forall|other: u64|
                other != port_id ==> #[trigger] final(self)@.stream(other) == old(self)@.stream(
                    other,
                ),
    {
        match self.pop_pending_message(port_id) {
            Some(message) => {
                proof {
                    let list = old(self)@.set_aside(port_id);
                    let rest = for_port(old(self)@.inbox, port_id);
                    assert((list + rest)[0] == list[0]);
                    assert((list + rest).skip(1) =~= list.skip(1) + rest);
                    assert forall|other: u64| other != port_id implies #[trigger] self@.stream(other)
                        == old(self)@.stream(other) by {
                        assert(self@.set_aside(other) == old(self)@.set_aside(other));
                    }
                }
                return TryRecv::Message(message);
            },
            None => {},
        }
        while self.inbox.len() > 0
            invariant
                self.wf(),
                self@.open == old(self)@.open,
                self@.set_aside(port_id).len() == 0,
                forall|other: u64| #[trigger] self@.stream(other) == old(self)@.stream(other),
            decreases self.inbox@.len(),
        {
            let ghost before = self@;
            let queued = self.inbox.remove(0);
            let ghost head = before.inbox[0];
            proof {
                assert(queued@ == head);
                assert(self@.inbox =~= before.inbox.skip(1));
                assert(self@.pending =~= before.pending);
            }
            let ghost popped = self@;
            if queued.port_id() == port_id {
                proof {
                    let rest = for_port(before.inbox.skip(1), port_id);
                    assert(before.stream(port_id) =~= seq![head.message] + rest);
                    assert(self@.stream(port_id) =~= rest);
                    assert((seq![head.message] + rest).skip(1) =~= rest);
                    assert(before.stream(port_id) == old(self)@.stream(port_id));
                    assert forall|other: u64| other != port_id implies #[trigger] self@.stream(other)
                        == old(self)@.stream(other) by {
                        assert(self@.set_aside(other) == before.set_aside(other));
                        assert(before.stream(other) == old(self)@.stream(other));
                    }
                }
                return TryRecv::Message(queued.into_message());
            }
            self.push_pending_message(queued);
            proof {
                assert forall|other: u64| #[trigger] self@.stream(other) == old(self)@.stream(
                    other,
                ) by {
                    assert(before.stream(other) == old(self)@.stream(other));
                    assert(popped.set_aside(other) == before.set_aside(other));
                    if other == head.port_id {
                        let rest = for_port(before.inbox.skip(1), other);
                        assert(self@.set_aside(other) == before.set_aside(other).push(
                            head.message,
                        ));
                        assert(before.set_aside(other).push(head.message) + rest
                            =~= before.set_aside(other) + (seq![head.message] + rest));
                    } else {
                        assert(self@.set_aside(other) == before.set_aside(other));
                    }
                }
                assert(self@.set_aside(port_id) == popped.set_aside(port_id));
            }
        }
        proof {
            assert(self@.inbox =~= Seq::<QueuedView>::empty());
            assert(self@.stream(port_id).len() == 0);
            assert(self@.stream(port_id) == old(self)@.stream(port_id));
        }
        if self.open {
            TryRecv::Empty
        } else {
            TryRecv::Closed
        }
    }
}

/// What is routed to a port joins the end of its stream and of no other.
pub proof fn law_send_extends_stream(before: MailboxView, queued: QueuedView, port_id: u64)
    ensures
        (MailboxView { inbox: before.inbox.push(queued), ..before }).stream(port_id) == (
        if queued.port_id == port_id {
            before.stream(port_id).push(queued.message)
        } else {
            before.stream(port_id)
        }),
{
    let after = MailboxView { inbox: before.inbox.push(queued), ..before };
    lemma_for_port_push(before.inbox, queued, port_id);
    assert(after.set_aside(port_id) == before.set_aside(port_id));
    assert(after.stream(port_id) =~= (if queued.port_id == port_id {
        before.stream(port_id).push(queued.message)
    } else {
        before.stream(port_id)
    }));
}

/// A message sent to a port with nothing waiting is the next one received from
/// it, unchanged.
pub proof fn law_receive_returns_sent(before: MailboxView, queued: QueuedView)
    requires
        before.stream(queued.port_id).len() == 0,
    ensures
        (MailboxView { inbox: before.inbox.push(queued), ..before }).stream(queued.port_id)
            == seq![queued.message],
{
    law_send_extends_stream(before, queued, queued.port_id);
    assert(before.stream(queued.port_id) =~= Seq::<MessageView>::empty());
    assert(Seq::<MessageView>::empty().push(queued.message) =~= seq![queued.message]);
}

} // verus!
