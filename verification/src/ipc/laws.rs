//! What the ports guarantee, from the descriptor of a sender to that of a
//! receiver.

use super::cap::covers;
use super::dispatch::{
    after_send, recv_effect, FanoutGuard, FanoutWorld, GuardMode, PortOutcome, PortRequest,
    UnicastPortGuard, UnicastWorld,
};
use super::fanout::{fanned_out, first_gone, law_fan_out_reaches_each, routes, FanoutPort};
use super::frame::{InvokeReply, IpcError, PortMethod};
use super::inbox::{law_send_extends_stream, MailboxView, QueuedView};
use super::message::MessageView;
use super::port::{PortSendFailure, Route, UnicastPort};
use super::reply::{ReplyPortGuard, ReplyWorld};
use super::user::{
    marshalled, message_handles, transferred_slots, write_effect, PortUserMessage, PortUserMessageError, UserFaults,
    UserInput, UserWrites,
};
use crate::object::{
    acquire_all, close_all, closes_all, slots_in_turn, table_after, Handle, ObjectError,
};
use vstd::prelude::*;

verus! {

/// The words that a descriptor hands over.
pub open spec fn handed_words(input: UserInput) -> Seq<usize> {
    if input.desc.inline_words_len == 0 {
        Seq::empty()
    } else {
        input.words->Some_0@
    }
}

/// The slots of the attachments that a descriptor hands over.
pub open spec fn handed_slots(input: UserInput) -> Seq<u32> {
    if input.desc.handle_slots_len == 0 {
        Seq::empty()
    } else {
        input.slots->Some_0@
    }
}

/// References to the handles behind slots are those very handles, in order.
pub proof fn law_acquired_are_the_handles_of_the_slots(
    table: Map<u64, Handle>,
    slots: Seq<u32>,
    i: int,
)
    requires
        acquire_all(table, slots) is Ok,
        0 <= i < slots.len(),
    ensures
        acquire_all(table, slots)->Ok_0.len() == slots.len(),
        table.dom().contains(slots[i] as u64),
        table[slots[i] as u64].acquire_refusal is None,
        acquire_all(table, slots)->Ok_0[i] == table[slots[i] as u64],
    decreases slots.len(),
{
    let rest = slots.drop_last();
    lemma_acquired_len(table, slots);
    lemma_acquired_len(table, rest);
    if i < rest.len() {
        law_acquired_are_the_handles_of_the_slots(table, rest, i);
    }
}

proof fn lemma_acquired_len(table: Map<u64, Handle>, slots: Seq<u32>)
    requires
        acquire_all(table, slots) is Ok,
    ensures
        acquire_all(table, slots)->Ok_0.len() == slots.len(),
    decreases slots.len(),
{
    if slots.len() > 0 {
        lemma_acquired_len(table, slots.drop_last());
    }
}

/// Handles that are installed one after the other go into different slots that
/// were free, and nothing else changes.
pub proof fn law_installed_handles_are_found(
    table: Map<u64, Handle>,
    handles: Seq<Handle>,
    slots: Seq<u32>,
    i: int,
    old_slot: u64,
)
    requires
        slots_in_turn(table, handles, slots),
        0 <= i < slots.len() <= handles.len(),
    ensures
        table_after(table, handles, slots).dom().contains(slots[i] as u64),
        table_after(table, handles, slots)[slots[i] as u64] == handles[i],
        !table.dom().contains(slots[i] as u64),
        table.dom().contains(old_slot) ==> table_after(table, handles, slots).dom().contains(
            old_slot,
        ) && table_after(table, handles, slots)[old_slot] == table[old_slot],
    decreases slots.len(),
{
    let rest = slots.drop_last();
    if rest.len() > 0 {
        let j = if i < rest.len() {
            i
        } else {
            0
        };
        law_installed_handles_are_found(table, handles, rest, j, old_slot);
        if i == rest.len() {
            lemma_old_slots_stay(table, handles, rest, slots[i] as u64);
        }
    }
}

proof fn lemma_old_slots_stay(
    table: Map<u64, Handle>,
    handles: Seq<Handle>,
    slots: Seq<u32>,
    slot: u64,
)
    requires
        slots_in_turn(table, handles, slots),
    ensures
        table.dom().contains(slot) ==> table_after(table, handles, slots).dom().contains(slot)
            && table_after(table, handles, slots)[slot] == table[slot],
    decreases slots.len(),
{
    if slots.len() > 0 {
        lemma_old_slots_stay(table, handles, slots.drop_last(), slot);
    }
}

/// A descriptor describes the message that is made from it: the same transaction,
/// protocol, operation and words, and the handles behind its slots.
pub proof fn law_descriptor_describes_message(
    input: UserInput,
    table: Map<u64, Handle>,
    message: MessageView,
    i: int,
)
    requires
        marshalled(input, table) == Ok::<MessageView, PortUserMessageError>(message),
    ensures
        message.header.txid == input.desc.txid,
        message.header.proto_id == input.desc.proto_id,
        message.header.opcode == input.desc.opcode,
        message.inline_data == handed_words(input),
        message.attachments.len() == handed_slots(input).len(),
        0 <= i < message.attachments.len() ==> message.attachments[i] == table[handed_slots(
            input,
        )[i] as u64],
        match input.desc.buffer_slot {
            Some(slot) => table.dom().contains(slot as u64) && message.buffer == Some(
                table[slot as u64],
            ),
            None => message.buffer is None,
        },
        match input.desc.reply_port_slot {
            Some(slot) => table.dom().contains(slot as u64) && message.reply_port == Some(
                table[slot as u64],
            ),
            None => message.reply_port is None,
        },
{
    let slots = handed_slots(input);
    lemma_acquired_len(table, slots);
    if 0 <= i < slots.len() {
        law_acquired_are_the_handles_of_the_slots(table, slots, i);
    }
}

/// A descriptor makes a message wherever its copies did not fault and the slots
/// that it names can be used.
pub proof fn law_usable_descriptor_makes_message(input: UserInput, table: Map<u64, Handle>)
    requires
        input.desc.inline_words_len > 0 ==> input.words is Some,
        input.desc.handle_slots_len == 0,
        input.desc.buffer_slot matches Some(slot) ==> table.dom().contains(slot as u64)
            && table[slot as u64].acquire_refusal is None,
        input.desc.reply_port_slot matches Some(slot) ==> table.dom().contains(slot as u64)
            && table[slot as u64].acquire_refusal is None,
    ensures
        marshalled(input, table) is Ok,
{
    assert(acquire_all(table, Seq::<u32>::empty()) is Ok);
}

/// Round trip: where a descriptor becomes a message and that message is written to
/// a receiver, the descriptor of the receiver has the transaction, the protocol,
/// the operation and the words of the sender, and the receiver holds the handles
/// of the sender.
pub proof fn law_message_round_trip(
    input: UserInput,
    sender: Map<u64, Handle>,
    message: MessageView,
    desc: PortUserMessage,
    faults: UserFaults,
    before: Map<u64, Handle>,
    after: Map<u64, Handle>,
    writes: UserWrites,
    i: int,
)
    requires
        marshalled(input, sender) == Ok::<MessageView, PortUserMessageError>(message),
        write_effect(desc, message, faults, before, after, Ok(writes)),
        message.inline_data.len() <= usize::MAX,
        message.attachments.len() <= usize::MAX,
    ensures
        writes.desc.txid == input.desc.txid,
        writes.desc.proto_id == input.desc.proto_id,
        writes.desc.opcode == input.desc.opcode,
        writes.words@ == handed_words(input),
        writes.desc.inline_words_len == handed_words(input).len(),
        writes.desc.handle_slots_len == handed_slots(input).len(),
        writes.desc.inline_words_ptr == desc.inline_words_ptr,
        writes.desc.handle_slots_ptr == desc.handle_slots_ptr,
        writes.slots@.len() == handed_slots(input).len(),
        0 <= i < writes.slots@.len() ==> after[writes.slots@[i] as u64] == sender[handed_slots(
            input,
        )[i] as u64],
        writes.desc.buffer_slot is Some <==> input.desc.buffer_slot is Some,
        writes.desc.reply_port_slot is Some <==> input.desc.reply_port_slot is Some,
        input.desc.buffer_slot is Some ==> after[writes.desc.buffer_slot->0 as u64]
            == sender[input.desc.buffer_slot->0 as u64],
        input.desc.reply_port_slot is Some ==> after[writes.desc.reply_port_slot->0 as u64]
            == sender[input.desc.reply_port_slot->0 as u64],
{
    law_descriptor_describes_message(input, sender, message, i);
    let all = message_handles(message);
    let slots = super::user::written_slots(writes);
    let n = message.attachments.len() as int;
    if 0 <= i < n {
        law_installed_handles_are_found(before, all, slots, i, 0);
    }
    if message.buffer is Some {
        law_installed_handles_are_found(before, all, slots, n, 0);
    }
    if message.reply_port is Some {
        law_installed_handles_are_found(before, all, slots, slots.len() - 1, 0);
    }
}

/// A receiver whose descriptor has room, and whose memory can be written, gets the
/// message; one without room is told so and nothing of it changes.
pub proof fn law_roomy_receiver_gets_message(
    desc: PortUserMessage,
    message: MessageView,
    faults: UserFaults,
    before: Map<u64, Handle>,
    after: Map<u64, Handle>,
    result: Result<UserWrites, PortUserMessageError>,
)
    requires
        write_effect(desc, message, faults, before, after, result),
    ensures
        desc.inline_words_len >= message.inline_data.len() && desc.handle_slots_len
            >= message.attachments.len() && !faults.words && !faults.slots && !faults.desc ==>
            result is Ok,
        desc.inline_words_len < message.inline_data.len() || desc.handle_slots_len
            < message.attachments.len() ==> after == before && result == Err::<
            UserWrites,
            PortUserMessageError,
        >(PortUserMessageError::Underlying(IpcError::BufferTooSmall)),
{
}

/// A send that succeeds takes the handles that travel away from the sender, and no
/// others.
pub proof fn law_sent_handles_leave_the_sender(
    table: Map<u64, Handle>,
    slots: Seq<u32>,
    slot: u64,
)
    requires
        closes_all(table, slots),
    ensures
        (exists|j: int| 0 <= j < slots.len() && slot == #[trigger] slots[j] as u64) ==> !close_all(
            table,
            slots,
        ).dom().contains(slot),
        !(exists|j: int| 0 <= j < slots.len() && slot == #[trigger] slots[j] as u64) ==> (
        close_all(table, slots).dom().contains(slot) <==> table.dom().contains(slot))
            && close_all(table, slots)[slot] == table[slot],
    decreases slots.len(),
{
    if slots.len() > 0 {
        let rest = slots.skip(1);
        law_sent_handles_leave_the_sender(table.remove(slots[0] as u64), rest, slot);
        if exists|j: int| 0 <= j < rest.len() && slot == #[trigger] rest[j] as u64 {
            let j = choose|j: int| 0 <= j < rest.len() && slot == #[trigger] rest[j] as u64;
            assert(slots[j + 1] as u64 == slot);
        } else if slot == slots[0] as u64 {
            lemma_closed_stays_closed(table.remove(slot), rest, slot);
        } else {
            assert forall|j: int| 0 <= j < slots.len() implies slot != #[trigger] slots[j] as u64 by {
                if j > 0 {
                    assert(rest[j - 1] == slots[j]);
                }
            }
            assert(table.remove(slots[0] as u64)[slot] == table[slot]) by {
                if !table.dom().contains(slot) {
                    lemma_closed_stays_closed(table, slots, slot);
                }
            }
        }
    }
}

proof fn lemma_closed_stays_closed(table: Map<u64, Handle>, slots: Seq<u32>, slot: u64)
    requires
        !table.dom().contains(slot),
    ensures
        !close_all(table, slots).dom().contains(slot),
    decreases slots.len(),
{
    if slots.len() > 0 && table.dom().contains(slots[0] as u64) {
        lemma_closed_stays_closed(table.remove(slots[0] as u64), slots.skip(1), slot);
    }
}

/// What was answered to a request that succeeded without a value.
pub open spec fn succeeded(outcome: PortOutcome) -> bool {
    outcome matches PortOutcome::Finished(Ok(InvokeReply::Done(_)))
}

/// A message that was sent through a port of one receiver, where nothing waited
/// before, is what the receiver gets next: with the transaction, the protocol, the
/// operation and the words of the sender.
pub proof fn law_unicast_message_arrives(
    sender: UnicastPortGuard,
    send: PortRequest,
    before: UnicastWorld,
    sent: UnicastWorld,
    answer: PortOutcome,
    receiver: UnicastPortGuard,
    recv: PortRequest,
    waiting: UnicastWorld,
    after: UnicastWorld,
    writes: UserWrites,
)
    requires
        send.method == Some(PortMethod::Send),
        send.input is Some,
        sender.effect(send, before, sent, answer),
        succeeded(answer),
        before.port.receiver is Some,
        before.boxes[before.port.receiver->0.inbox].stream(before.port.id).len() == 0,
        recv.method == Some(PortMethod::Recv),
        recv.inbox == Ok::<u64, ObjectError>(before.port.receiver->0.inbox),
        waiting.port == sent.port,
        waiting.boxes == sent.boxes,
        receiver.effect(recv, waiting, after, PortOutcome::Received(writes)),
        handed_words(send.input->0).len() <= usize::MAX,
        handed_slots(send.input->0).len() <= usize::MAX,
    ensures
        writes.desc.txid == send.input->0.desc.txid,
        writes.desc.proto_id == send.input->0.desc.proto_id,
        writes.desc.opcode == send.input->0.desc.opcode,
        writes.words@ == handed_words(send.input->0),
        writes.slots@.len() == handed_slots(send.input->0).len(),
        after.boxes[before.port.receiver->0.inbox].stream(before.port.id).len() == 0,
        sent.port.accepted == (if before.port.accepted == u64::MAX {
            0
        } else {
            before.port.accepted + 1
        }),
{
    let input = send.input->0;
    let inbox = before.port.receiver->0.inbox;
    let message = marshalled(input, before.handles)->Ok_0;
    let result = choose|result: Result<(), PortSendFailure>| {
        &&& #[trigger] UnicastPort::send_effect(
            before.port,
            before.boxes,
            message,
            sent.port,
            sent.boxes,
            result,
        )
        &&& after_send(result, input, before.handles, sent.handles, answer)
    };
    assert(result is Ok);
    law_send_extends_stream(
        before.boxes[inbox],
        QueuedView { port_id: before.port.id, message },
        before.port.id,
    );
    let stream = sent.boxes[inbox].stream(before.port.id);
    assert(stream == before.boxes[inbox].stream(before.port.id).push(message));
    assert(stream[0] == message);
    let desc = recv.desc->0;
    law_descriptor_describes_message(input, before.handles, message, 0);
    let exact = choose|result: Result<UserWrites, PortUserMessageError>|
        (#[trigger] write_effect(
            desc,
            stream[0],
            recv.faults,
            waiting.handles,
            after.handles,
            result,
        )) && (match result {
            Ok(values) => PortOutcome::Received(writes) == PortOutcome::Received(values),
            Err(error) => PortOutcome::Received(writes) == super::dispatch::user_error(error),
        });
    assert(exact == Ok::<UserWrites, PortUserMessageError>(writes));
    law_message_round_trip(
        input,
        before.handles,
        message,
        desc,
        recv.faults,
        waiting.handles,
        after.handles,
        writes,
        0,
    );
}

/// Messages leave a port in the order in which they came: the second of two sends
/// does not overtake the first.
pub proof fn law_first_sent_is_first_received(
    port: UnicastPort,
    boxes: Map<u64, MailboxView>,
    first: MessageView,
    port_between: UnicastPort,
    between: Map<u64, MailboxView>,
    second: MessageView,
    port_sent: UnicastPort,
    sent: Map<u64, MailboxView>,
    request: PortRequest,
    handles: Map<u64, Handle>,
    handles_after: Map<u64, Handle>,
    after: Map<u64, MailboxView>,
    outcome: PortOutcome,
)
    requires
        port.receiver is Some,
        boxes[port.receiver->0.inbox].stream(port.id).len() == 0,
        UnicastPort::send_effect(port, boxes, first, port_between, between, Ok(())),
        UnicastPort::send_effect(port_between, between, second, port_sent, sent, Ok(())),
        request.inbox == Ok::<u64, ObjectError>(port.receiver->0.inbox),
        recv_effect(
            port_sent.id,
            request,
            handles,
            sent,
            handles_after,
            after,
            outcome,
        ),
    ensures
        after[port.receiver->0.inbox].stream(port.id) == seq![second],
        outcome matches PortOutcome::Received(writes) ==> writes.desc.txid == first.header.txid
            && writes.desc.proto_id == first.header.proto_id && writes.desc.opcode
            == first.header.opcode && writes.words@ == first.inline_data,
{
    let inbox = port.receiver->0.inbox;
    law_send_extends_stream(boxes[inbox], QueuedView { port_id: port.id, message: first }, port.id);
    law_send_extends_stream(
        between[inbox],
        QueuedView { port_id: port.id, message: second },
        port.id,
    );
    let stream = sent[inbox].stream(port.id);
    assert(stream =~= seq![first, second]);
    assert(stream.skip(1) =~= seq![second]);
}

/// What goes to one port is not seen through another.
pub proof fn law_ports_do_not_mix(
    port: UnicastPort,
    boxes: Map<u64, MailboxView>,
    message: MessageView,
    port_after: UnicastPort,
    after: Map<u64, MailboxView>,
    result: Result<(), PortSendFailure>,
    inbox: u64,
    other: u64,
)
    requires
        UnicastPort::send_effect(port, boxes, message, port_after, after, result),
        boxes.dom().contains(inbox),
        other != port.id || port.receiver is None || port.receiver->0.inbox != inbox,
    ensures
        after[inbox].stream(other) == boxes[inbox].stream(other),
        after[inbox].open == boxes[inbox].open,
{
    if result is Ok {
        let at = port.receiver->0.inbox;
        law_send_extends_stream(boxes[at], QueuedView { port_id: port.id, message }, other);
    }
}

/// A message that carries a handle without the right to be sent goes nowhere.
pub proof fn law_unsendable_handle_does_not_travel(
    port: UnicastPort,
    boxes: Map<u64, MailboxView>,
    message: MessageView,
    port_after: UnicastPort,
    after: Map<u64, MailboxView>,
    result: Result<(), PortSendFailure>,
    i: int,
)
    requires
        UnicastPort::send_effect(port, boxes, message, port_after, after, result),
        (0 <= i < message.attachments.len() && !message.attachments[i].capabilities.send) || (
        message.buffer matches Some(buffer) && !buffer.capabilities.send) || (
        message.reply_port matches Some(reply) && !reply.capabilities.send),
    ensures
        result is Err,
        after == boxes,
{
}

/// A port that is frozen or closed, or that nobody is bound to, takes no message.
pub proof fn law_closed_port_takes_nothing(
    port: UnicastPort,
    boxes: Map<u64, MailboxView>,
    message: MessageView,
    port_after: UnicastPort,
    after: Map<u64, MailboxView>,
    result: Result<(), PortSendFailure>,
)
    requires
        UnicastPort::send_effect(port, boxes, message, port_after, after, result),
        port.state is Frozen || port.state is Closed || port.receiver is None,
    ensures
        result is Err,
        after == boxes,
        port_after.accepted == port.accepted,
{
}

/// Where a send to many succeeds, every subscriber has got the message as the last
/// of what waits for it, and nobody else has got anything.
pub proof fn law_every_subscriber_gets_the_message(
    port: FanoutPort,
    boxes: Map<u64, MailboxView>,
    message: MessageView,
    port_after: FanoutPort,
    after: Map<u64, MailboxView>,
    pid: u64,
    inbox: u64,
)
    requires
        port.wf(),
        FanoutPort::send_effect(port, boxes, message, port_after, after, Ok(())),
        port.subscribers@.dom().contains(pid),
        forall|p: u64, q: u64|
            port.subscribers@.dom().contains(p) && port.subscribers@.dom().contains(q) && p != q
                ==> #[trigger] port.subscribers@[p] != #[trigger] port.subscribers@[q],
    ensures
        port.state is Open,
        after[port.subscribers@[pid]].stream(port.id)
            == boxes[port.subscribers@[pid]].stream(port.id).push(message),
        boxes.dom().contains(inbox) && (forall|p: u64| #[trigger]
            port.subscribers@.dom().contains(p) ==> port.subscribers@[p] != inbox) ==> after[inbox]
            == boxes[inbox],
        port_after.subscribers@ == port.subscribers@,
{
    let all = port.routes();
    let order = port.subscribers.order();
    let queued = QueuedView { port_id: port.id, message };
    port.subscribers.lemma_order();
    let gone = choose|gone: int| {
        &&& #[trigger] first_gone(boxes, all, gone)
        &&& after == fanned_out(boxes, all, queued, gone as nat)
        &&& gone == all.len()
    };
    let at = choose|at: int| 0 <= at < order.len() && order[at] == pid;
    assert(all[at] == Route { pid, inbox: port.subscribers@[pid] });
    assert forall|i: int, j: int| 0 <= i < j < all.len() implies (#[trigger] all[i]).inbox != (
    #[trigger] all[j]).inbox by {
        assert(order.contains(order[i]) && order.contains(order[j]));
        assert(order[i] != order[j]);
        assert(port.subscribers@[order[i]] != port.subscribers@[order[j]]);
    }
    law_fan_out_reaches_each(boxes, all, queued, all.len(), at);
    if forall|p: u64| #[trigger]
        port.subscribers@.dom().contains(p) ==> port.subscribers@[p] != inbox {
        assert forall|i: int| 0 <= i < all.len() implies (#[trigger] all[i]).inbox != inbox by {
            assert(order.contains(order[i]));
            assert(port.subscribers@.dom().contains(order[i]));
        }
        lemma_fan_out_spares(boxes, all, queued, all.len(), inbox);
    }
}

proof fn lemma_fan_out_spares(
    boxes: Map<u64, MailboxView>,
    all: Seq<Route>,
    queued: QueuedView,
    count: nat,
    inbox: u64,
)
    requires
        count <= all.len(),
        forall|i: int| 0 <= i < all.len() ==> (#[trigger] all[i]).inbox != inbox,
    ensures
        fanned_out(boxes, all, queued, count)[inbox] == boxes[inbox],
    decreases count,
{
    if count > 0 {
        lemma_fan_out_spares(boxes, all, queued, (count - 1) as nat, inbox);
        assert(all[count - 1].inbox != inbox);
    }
}

/// Only a handle with the bit for sending can send, and only one with the bit for
/// receiving can receive; others are refused and change nothing.
pub proof fn law_unicast_needs_its_bits(
    guard: UnicastPortGuard,
    request: PortRequest,
    before: UnicastWorld,
    after: UnicastWorld,
    outcome: PortOutcome,
)
    requires
        guard.effect(request, before, after, outcome),
        guard.interface_caps != u32::MAX,
        (request.method == Some(PortMethod::Send) && guard.interface_caps & 0x1 == 0) || (
        request.method == Some(PortMethod::Recv) && guard.interface_caps & 0x2 == 0) || (
        request.method == Some(PortMethod::BindReceiver) && guard.interface_caps & 0x10 == 0) || (
        request.method == Some(PortMethod::RebindReceiver) && guard.interface_caps & 0x20 == 0)
            || (request.method == Some(PortMethod::QueryState) && guard.interface_caps & 0x40
            == 0) || (request.method == Some(PortMethod::Close) && guard.interface_caps & 0x100
            == 0),
    ensures
        outcome == PortOutcome::Finished(
            Err::<InvokeReply, ObjectError>(ObjectError::InsufficientCapabilities),
        ),
        after == before,
{
}

/// A handle for reading cannot send, receive or bind, and one for using a port
/// cannot bind or close it.
pub proof fn law_planes_are_separate(mode: GuardMode, interface_caps: u32, caps: u32)
    ensures
        mode is Read ==> !mode.permits(interface_caps, PortMethod::Send, caps) && !mode.permits(
            interface_caps,
            PortMethod::Recv,
            caps,
        ) && !mode.permits(interface_caps, PortMethod::BindReceiver, caps),
        mode is Execute ==> !mode.permits(interface_caps, PortMethod::BindReceiver, caps)
            && !mode.permits(interface_caps, PortMethod::Subscribe, caps) && !mode.permits(
            interface_caps,
            PortMethod::Close,
            caps,
        ),
        mode is Write ==> !mode.permits(interface_caps, PortMethod::Send, caps) && !mode.permits(
            interface_caps,
            PortMethod::Recv,
            caps,
        ),
        mode is Execute && interface_caps == u32::MAX ==> mode.permits(
            interface_caps,
            PortMethod::Send,
            caps,
        ) && mode.permits(interface_caps, PortMethod::Recv, caps),
        mode is Read && interface_caps == u32::MAX ==> mode.permits(
            interface_caps,
            PortMethod::QueryState,
            caps,
        ),
        mode is Admin && interface_caps == u32::MAX ==> mode.permits(
            interface_caps,
            PortMethod::Close,
            caps,
        ),
        interface_caps & caps != caps && interface_caps != u32::MAX ==> !mode.permits(
            interface_caps,
            PortMethod::Send,
            caps,
        ),
{
}

/// A receiver that is not subscribed gets nothing from a port of many.
pub proof fn law_only_subscribers_receive(
    guard: FanoutGuard,
    request: PortRequest,
    before: FanoutWorld,
    after: FanoutWorld,
    outcome: PortOutcome,
    pid: u64,
)
    requires
        guard.effect(request, before, after, outcome),
        request.method == Some(PortMethod::Recv),
        request.caller == Ok::<u64, ObjectError>(pid),
        !before.port.subscribers@.dom().contains(pid),
    ensures
        !(outcome is Received),
        after == before,
{
}

/// A subscription lasts until it is ended, and ending one leaves the others.
pub proof fn law_subscription_lasts(
    before: FanoutPort,
    route: Route,
    joined: FanoutPort,
    after: FanoutPort,
    left: Result<(), super::port::PortBindError>,
    other: u64,
)
    requires
        before.state is Open,
        !before.subscribers@.dom().contains(route.pid),
        FanoutPort::subscribe_effect(before, route, joined, Ok(())),
        FanoutPort::unsubscribe_effect(joined, route.pid, after, left),
    ensures
        joined.subscribers@.dom().contains(route.pid),
        joined.subscribers@[route.pid] == route.inbox,
        left is Ok,
        after.subscribers@ == before.subscribers@,
        other != route.pid ==> (joined.subscribers@.dom().contains(other)
            <==> before.subscribers@.dom().contains(other)),
{
    assert(after.subscribers@ =~= before.subscribers@);
}

/// Whether an invocation was answered with this value.
pub open spec fn told(outcome: PortOutcome, value: usize) -> bool {
    outcome matches PortOutcome::Finished(Ok(InvokeReply::Done(words))) && words.v0 == value
        && words.v1 == 0 && words.v2 == 0 && words.v3 == 0 && words.v4 == 0
}

/// Whether an invocation was answered with this error.
pub open spec fn failed(outcome: PortOutcome, error: IpcError) -> bool {
    outcome matches PortOutcome::Finished(Ok(InvokeReply::Ipc(code))) && code == error
}

/// Whether an invocation was refused for want of rights.
pub open spec fn unpermitted(outcome: PortOutcome) -> bool {
    outcome matches PortOutcome::Finished(Err(ObjectError::InsufficientCapabilities))
}

/// A message with a handle that may not be sent goes to no subscriber, nor does
/// one on a port that is frozen or closed. One that cannot be cloned goes to none
/// of several.
pub proof fn law_fanout_refuses_for_all(
    port: FanoutPort,
    boxes: Map<u64, MailboxView>,
    message: MessageView,
    port_after: FanoutPort,
    after: Map<u64, MailboxView>,
    result: Result<(), PortSendFailure>,
)
    requires
        FanoutPort::send_effect(port, boxes, message, port_after, after, result),
        !(port.state is Open) || !message.sendable() || (port.routes().len() > 1
            && message.clone_refusal() is Some),
    ensures
        result is Err,
        after == boxes,
        port_after.accepted == port.accepted,
        port.state is Open && !message.sendable() ==> result->Err_0 is InvalidMessage,
        !(port.state is Open) ==> result->Err_0 is Closed,
        port.state is Open && message.sendable() ==> result->Err_0 is CloneFailed,
{
}

/// A subscriber that is gone ends the delivery. Only its own subscription is lost.
pub proof fn law_gone_subscriber_is_dropped(
    port: FanoutPort,
    boxes: Map<u64, MailboxView>,
    message: MessageView,
    port_after: FanoutPort,
    after: Map<u64, MailboxView>,
    result: Result<(), PortSendFailure>,
    pid: u64,
)
    requires
        FanoutPort::send_effect(port, boxes, message, port_after, after, result),
        port.subscribers@.contains_key(pid),
        !port_after.subscribers@.contains_key(pid),
        port.state is Open,
        message.sendable(),
        message.clone_refusal() is None,
    ensures
        result is Err,
        result->Err_0 is ReceiverClosed,
        forall|other: u64| #[trigger]
            port.subscribers@.contains_key(other) && other != pid
                ==> port_after.subscribers@.contains_key(other),
{
}

/// A send that was delivered is answered well once all of its slots were given up.
/// One that was not delivered leaves the sender its handles.
pub proof fn law_sender_is_told(
    result: Result<(), PortSendFailure>,
    input: UserInput,
    before: Map<u64, Handle>,
    after: Map<u64, Handle>,
    outcome: PortOutcome,
)
    requires
        after_send(result, input, before, after, outcome),
    ensures
        result is Ok && closes_all(before, transferred_slots(input)) ==> told(outcome, 0),
        result is Ok && !closes_all(before, transferred_slots(input)) ==> outcome
            == PortOutcome::Finished(Err(ObjectError::ObjectNotFound)),
        result is Ok ==> after == close_all(before, transferred_slots(input)),
        result matches Err(failure) ==> failed(outcome, failure.ipc()) && after == before,
{
}

/// A reply port is asked, sent to and received from with the capability for each,
/// from the sides that offer it.
pub proof fn law_reply_port_needs_its_bits(guard: ReplyPortGuard, method: PortMethod, caps: u32)
    ensures
        guard.permits(method, caps) ==> covers(guard.interface_caps, caps),
        guard.mode is Read ==> (guard.permits(method, caps) <==> method is QueryState && covers(
            guard.interface_caps,
            caps,
        )),
        guard.mode is Write ==> !guard.permits(method, caps),
        guard.mode is Execute ==> (guard.permits(method, caps) <==> (method is Send || method
            is Recv) && covers(guard.interface_caps, caps)),
        guard.mode is Agent || guard.mode is Admin ==> (guard.permits(method, caps) <==> (method
            is QueryState || method is Send || method is Recv) && covers(
            guard.interface_caps,
            caps,
        )),
{
}

/// A reply is sent where there is a receiver and no reply yet, and then waits to be
/// received. The sender has to wait where the last one was not taken.
pub proof fn law_reply_port_takes_one_message(
    guard: ReplyPortGuard,
    request: PortRequest,
    before: ReplyWorld,
    after: ReplyWorld,
    outcome: PortOutcome,
)
    requires
        guard.effect(request, before, after, outcome),
        request.method == Some(PortMethod::Send),
    ensures
        !guard.permits(PortMethod::Send, 0x1) ==> unpermitted(outcome) && after == before,
        guard.permits(PortMethod::Send, 0x1) && request.input is None ==> failed(
            outcome,
            IpcError::Fault,
        ) && after == before,
        guard.permits(PortMethod::Send, 0x1) ==> (request.input matches Some(input) ==> (marshalled(
            input,
            before.handles,
        ) matches Ok(message) ==> {
            &&& !message.sendable() ==> failed(outcome, IpcError::InvalidMessage) && after == before
            &&& message.sendable() && !before.port.open ==> failed(
                outcome,
                IpcError::ReceiverClosed,
            ) && after == before
            &&& message.sendable() && before.port.open && before.port.reply is Some ==> outcome
                is Wait && after == before
            &&& message.sendable() && before.port.open && before.port.reply is None
                ==> after.port.reply == Some(message) && after.port.open
        })),
{
}

/// The receiver of a reply port gets the reply that is there and empties the port.
/// It has to wait for one, unless none can come.
pub proof fn law_reply_is_received(
    guard: ReplyPortGuard,
    request: PortRequest,
    before: ReplyWorld,
    after: ReplyWorld,
    outcome: PortOutcome,
)
    requires
        guard.effect(request, before, after, outcome),
    ensures
        request.method == Some(PortMethod::QueryState) ==> after == before,
        request.method == Some(PortMethod::QueryState) && guard.permits(PortMethod::QueryState, 0x40)
            ==> told(outcome, 0),
        request.method == Some(PortMethod::QueryState) && !guard.permits(
            PortMethod::QueryState,
            0x40,
        ) ==> unpermitted(outcome),
        request.method == Some(PortMethod::Recv) && !guard.permits(PortMethod::Recv, 0x2)
            ==> unpermitted(outcome) && after == before,
        request.method == Some(PortMethod::Recv) && guard.permits(PortMethod::Recv, 0x2) ==> {
            &&& before.port.reply is None && before.port.open ==> outcome is Wait && after == before
            &&& before.port.reply is None && !before.port.open ==> failed(
                outcome,
                IpcError::ReceiverClosed,
            ) && after == before
            &&& before.port.reply is Some ==> after.port.reply is None && after.port.open
                == before.port.open
            &&& outcome matches PortOutcome::Received(writes) ==> request.desc is Some
                && before.port.reply is Some && write_effect(
                request.desc->Some_0,
                before.port.reply->Some_0,
                request.faults,
                before.handles,
                after.handles,
                Ok(writes),
            )
        },
        !(request.method == Some(PortMethod::QueryState)) && !(request.method == Some(
            PortMethod::Send,
        )) && !(request.method == Some(PortMethod::Recv)) ==> failed(
            outcome,
            IpcError::InvalidArgument,
        ) && after == before,
{
}

/// A receiver is bound to an open port that has none. Rebinding replaces the one
/// that is there. Both are told the process, and change nothing else.
pub proof fn law_port_has_one_receiver(
    guard: UnicastPortGuard,
    request: PortRequest,
    before: UnicastWorld,
    after: UnicastWorld,
    outcome: PortOutcome,
    route: Route,
)
    requires
        guard.effect(request, before, after, outcome),
        guard.mode is Admin,
        guard.interface_caps == u32::MAX,
        request.route == Ok::<Route, ObjectError>(route),
        request.method == Some(PortMethod::BindReceiver) || request.method == Some(
            PortMethod::RebindReceiver,
        ),
    ensures
        ({
            let bind = request.method == Some(PortMethod::BindReceiver);
            &&& after.handles == before.handles
            &&& after.boxes == before.boxes
            &&& !(before.port.state is Open) ==> failed(outcome, IpcError::PortClosed) && after.port
                == before.port
            &&& before.port.state is Open && bind && before.port.receiver is Some ==> failed(
                outcome,
                IpcError::AlreadyBound,
            ) && after.port == before.port
            &&& before.port.state is Open && (!bind || before.port.receiver is None) ==> {
                &&& told(outcome, route.pid as usize)
                &&& after.port.receiver == Some(route)
                &&& after.port.id == before.port.id
                &&& after.port.state == before.port.state
                &&& after.port.accepted == before.port.accepted
                &&& after.port.failed == before.port.failed
            }
        }),
{
}

/// A closed port has no receiver, a frozen one keeps it. The state of a port is
/// told in words: its kind and state, how many messages it took and refused, and
/// who receives.
pub proof fn law_port_can_be_closed_and_asked(
    guard: UnicastPortGuard,
    request: PortRequest,
    before: UnicastWorld,
    after: UnicastWorld,
    outcome: PortOutcome,
)
    requires
        guard.effect(request, before, after, outcome),
        guard.mode is Admin,
        guard.interface_caps == u32::MAX,
    ensures
        request.method == Some(PortMethod::Close) ==> after.port.state is Closed
            && after.port.receiver is None && told(outcome, 0) && after.boxes == before.boxes
            && after.handles == before.handles,
        request.method == Some(PortMethod::Freeze) ==> after.port.state is Frozen
            && after.port.receiver == before.port.receiver && told(outcome, 0),
        request.method == Some(PortMethod::QueryState) ==> after == before && (outcome
            matches PortOutcome::Finished(Ok(InvokeReply::Done(words))) && words.v0 == 0 && words.v1
            == (if before.port.state is Open {
            0
        } else if before.port.state is Frozen {
            1
        } else {
            2int
        }) && words.v2 == before.port.accepted as usize && words.v3 == before.port.failed as usize
            && words.v4 == (if before.port.receiver is Some {
            before.port.receiver->Some_0.pid as usize
        } else {
            usize::MAX
        })),
        request.method == Some(PortMethod::Subscribe) || request.method == Some(
            PortMethod::Unsubscribe,
        ) ==> failed(outcome, IpcError::InvalidArgument) && after == before,
{
}

/// Subscribers come and go by process. A subscription that is there already is
/// renewed and told, and one that is not cannot be given up.
pub proof fn law_subscribers_come_and_go(
    guard: FanoutGuard,
    request: PortRequest,
    before: FanoutWorld,
    after: FanoutWorld,
    outcome: PortOutcome,
)
    requires
        guard.effect(request, before, after, outcome),
        guard.mode is Admin,
        guard.interface_caps == u32::MAX,
    ensures
        request.method == Some(PortMethod::Subscribe) ==> (request.route matches Ok(route) ==> {
            &&& !(before.port.state is Open) ==> failed(outcome, IpcError::PortClosed)
                && after.port.subscribers@ == before.port.subscribers@
            &&& before.port.state is Open ==> after.port.subscribers@ == before.port.subscribers@.insert(
                route.pid,
                route.inbox,
            )
            &&& before.port.state is Open && before.port.subscribers@.contains_key(route.pid)
                ==> failed(outcome, IpcError::AlreadySubscribed)
            &&& before.port.state is Open && !before.port.subscribers@.contains_key(route.pid)
                ==> told(outcome, route.pid as usize)
        }),
        request.method == Some(PortMethod::Unsubscribe) ==> (request.process matches Ok(pid) ==> {
            &&& after.port.subscribers@ == before.port.subscribers@.remove(pid)
            &&& before.port.subscribers@.contains_key(pid) ==> told(outcome, pid as usize)
            &&& !before.port.subscribers@.contains_key(pid) ==> failed(
                outcome,
                IpcError::NotSubscribed,
            )
        }),
        request.method == Some(PortMethod::Close) ==> after.port.state is Closed && (forall|pid: u64|
            !#[trigger] after.port.subscribers@.contains_key(pid)) && told(outcome, 0),
        request.method == Some(PortMethod::Freeze) ==> after.port.state is Frozen
            && after.port.subscribers == before.port.subscribers && told(outcome, 0),
        request.method == Some(PortMethod::BindReceiver) || request.method == Some(
            PortMethod::RebindReceiver,
        ) ==> failed(outcome, IpcError::InvalidArgument) && after == before,
{
}

} // verus!
