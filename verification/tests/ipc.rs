use akarin::error::ObjectOrUnderlyingError;
use akarin::ipc::cap::{
    caps_cover, P_CLOSE_PORT, P_LISTEN, P_PUBLISH, P_QUERY_STATE, P_RECV_MSG, P_SEND_MSG,
};
use akarin::ipc::dispatch::{
    BroadcastPortGuard, BusPortGuard, GuardMode, PortOutcome, PortRequest, UnicastPortGuard,
};
use akarin::ipc::fanout::{BroadcastPort, BusPort, FanoutPort};
use akarin::ipc::frame::{InvokeReply, IpcError, IpcInvokeFrame, PortMethod, ReplyValues};
use akarin::ipc::inbox::{Mailbox, QueuedMessage, TryRecv};
use akarin::ipc::message::{Message, MessageFlags, MessageHeader, MessageValidationError};
use akarin::ipc::port::{
    MailboxSet, PortBindError, PortKind, PortSendError, PortState, PortStats, Route, UnicastPort,
};
use akarin::ipc::reply::{ReplyPort, ReplyPortGuard, ReplyRecv, ReplySend};
use akarin::ipc::user::{
    into_message, write_message, PortUserMessage, UserFaults, UserInput,
};
use akarin::object::{Capability, Handle, HandleTable, ObjectError};

fn handle(object: u64) -> Handle {
    let mut capabilities = Capability::none();
    capabilities.send = true;
    Handle { object, capabilities, interface_caps: 0, clone_refusal: None, acquire_refusal: None, key_refusal: None, derive_refusal: None }
}

fn mute(object: u64) -> Handle {
    let mut handle = handle(object);
    handle.capabilities.send = false;
    handle
}

fn message(txid: u64) -> Message {
    Message::new(MessageHeader::new(txid, 2, 3))
}

fn txid(received: TryRecv) -> Option<u64> {
    match received {
        TryRecv::Message(message) => Some(message.header().txid()),
        _ => None,
    }
}

const DESC: PortUserMessage = PortUserMessage {
    txid: 7,
    proto_id: 8,
    opcode: 9,
    inline_words_ptr: 0x100,
    inline_words_len: 2,
    handle_slots_ptr: 0x200,
    handle_slots_len: 1,
    buffer_slot: Some(1),
    reply_port_slot: None,
};

const NO_FAULTS: UserFaults = UserFaults { words: false, slots: false, desc: false };

fn input() -> UserInput {
    UserInput { desc: DESC, words: Some(vec![5, 6]), slots: Some(vec![0]) }
}

fn table() -> HandleTable {
    let mut table = HandleTable::new();
    table.install_handle(0, handle(10));
    table.install_handle(1, handle(11));
    table
}

fn request(method: PortMethod) -> PortRequest {
    PortRequest {
        method: Some(method),
        route: Ok(Route { pid: 4, inbox: 40 }),
        process: Ok(4),
        caller: Ok(4),
        inbox: Ok(40),
        input: Some(input()),
        desc: Some(PortUserMessage { buffer_slot: None, ..DESC }),
        faults: NO_FAULTS,
    }
}

fn failure<T>(
    result: Result<T, ObjectOrUnderlyingError<IpcError>>,
) -> Option<Result<ObjectError, IpcError>> {
    result.err().map(|error| error.into_object_or_underlying())
}

fn finished(outcome: PortOutcome) -> Result<InvokeReply, ObjectError> {
    match outcome {
        PortOutcome::Finished(result) => result,
        _ => panic!("the invocation is not finished"),
    }
}

fn one(value: usize) -> Result<InvokeReply, ObjectError> {
    Ok(IpcInvokeFrame::ok_one(value))
}

fn ipc(error: IpcError) -> Result<InvokeReply, ObjectError> {
    Ok(InvokeReply::Ipc(error))
}

const DENIED: Result<InvokeReply, ObjectError> = Err(ObjectError::InsufficientCapabilities);

#[test]
fn capability_words_cover_bit_by_bit() {
    assert!(caps_cover(0x7, 0x5));
    assert!(!caps_cover(0x5, 0x7));
    assert!(caps_cover(0, 0));
}

#[test]
fn frames_carry_values_or_errors() {
    let values = ReplyValues { v0: 1, v1: 2, v2: 3, v3: 4, v4: 5 };
    assert_eq!(IpcInvokeFrame::ok(values), InvokeReply::Done(values));
    let zero = ReplyValues { v0: 0, v1: 0, v2: 0, v3: 0, v4: 0 };
    assert_eq!(IpcInvokeFrame::empty_ok(), InvokeReply::Done(zero));
    assert_eq!(IpcInvokeFrame::ok_one(9), InvokeReply::Done(ReplyValues { v0: 9, ..zero }));
    assert_eq!(IpcInvokeFrame::ipc_error(IpcError::Fault), InvokeReply::Ipc(IpcError::Fault));
}

#[test]
fn flags_follow_the_contents() {
    let mut message = message(1);
    assert_eq!(message.header().flags(), MessageFlags { bits: 0 });
    message.push_inline_word(3);
    assert_eq!(message.header().flags(), MessageFlags { bits: 1 });
    message.push_attachment(handle(1));
    message.set_buffer(Some(handle(2)));
    message.set_reply_port(Some(handle(3)));
    assert_eq!(message.header().flags(), MessageFlags { bits: 15 });
    assert_eq!(message.take_attachments(), vec![handle(1)]);
    assert_eq!(message.header().flags(), MessageFlags { bits: 13 });
    assert_eq!(message.take_buffer(), Some(handle(2)));
    assert_eq!(message.take_reply_port(), Some(handle(3)));
    message.set_inline_data(Vec::new());
    assert_eq!(message.header().flags(), MessageFlags { bits: 0 });
    let header = message.header();
    assert_eq!((header.txid(), header.proto_id(), header.opcode()), (1, 2, 3));
}

#[test]
fn only_sendable_handles_travel() {
    let mut first = message(1);
    first.push_attachment(handle(1));
    assert_eq!(first.validate(), Ok(()));
    first.push_attachment(mute(2));
    first.set_buffer(Some(mute(3)));
    assert_eq!(
        first.validate(),
        Err(MessageValidationError::AttachmentMissingSend { index: 1 })
    );
    let mut second = message(1);
    second.set_buffer(Some(mute(3)));
    second.set_reply_port(Some(mute(3)));
    assert_eq!(second.validate(), Err(MessageValidationError::BufferMissingSend));
    second.take_buffer();
    assert_eq!(second.validate(), Err(MessageValidationError::ReplyPortMissingSend));
}

#[test]
fn copies_fail_with_their_handles() {
    let mut message = message(4);
    message.push_inline_word(8);
    message.push_attachment(handle(1));
    let copy = message.try_clone_for_fanout().ok().unwrap();
    assert_eq!(copy.inline_data(), &vec![8]);
    assert_eq!(copy.attachments(), &vec![handle(1)]);
    assert_eq!(copy.header(), message.header());
    let mut stuck = handle(2);
    stuck.clone_refusal = Some(ObjectError::ObjectDestroyed);
    message.set_buffer(Some(stuck));
    assert_eq!(message.try_clone_for_fanout().err(), Some(ObjectError::ObjectDestroyed));
}

#[test]
fn messages_come_back_in_order_per_port() {
    let mut mailbox = Mailbox::new();
    for (port, id) in [(1, 10), (2, 20), (1, 11), (2, 21)] {
        assert!(mailbox.send(QueuedMessage::new(port, message(id))).is_ok());
    }
    assert_eq!(txid(mailbox.try_recv_message(2)), Some(20));
    assert_eq!(txid(mailbox.try_recv_message(1)), Some(10));
    assert_eq!(txid(mailbox.try_recv_message(2)), Some(21));
    assert!(matches!(mailbox.try_recv_message(3), TryRecv::Empty));
    mailbox.close();
    let back = mailbox.send(QueuedMessage::new(1, message(12))).err().unwrap();
    assert_eq!((back.port_id(), back.into_message().header().txid()), (1, 12));
    assert_eq!(txid(mailbox.try_recv_message(1)), Some(11));
    assert!(matches!(mailbox.try_recv_message(1), TryRecv::Closed));
    assert!(!mailbox.is_open());
}

#[test]
fn numbers_of_kinds_and_states() {
    assert_eq!(PortKind::Unicast.as_usize(), 0);
    assert_eq!(PortKind::Broadcast.as_usize(), 1);
    assert_eq!(PortKind::Bus.as_usize(), 2);
    for state in [PortState::Open, PortState::Frozen, PortState::Closed] {
        assert_eq!(PortState::from_u8(state.as_u8()), state);
    }
    assert_eq!(PortState::from_u8(77), PortState::Closed);
    assert_eq!(PortBindError::AlreadyBound.ipc_error(), IpcError::AlreadyBound);
    assert_eq!(PortBindError::AlreadySubscribed.ipc_error(), IpcError::AlreadySubscribed);
    assert_eq!(PortBindError::NotSubscribed.ipc_error(), IpcError::NotSubscribed);
    assert_eq!(PortBindError::Closed.ipc_error(), IpcError::PortClosed);
    assert_eq!(PortSendError::Unbound(message(1)).ipc_error(), IpcError::Unbound);
    let failed = PortSendError::CloneFailed { message: message(1), error: ObjectError::ObjectNotFound };
    assert_eq!(failed.ipc_error(), IpcError::InvalidMessage);
}

#[test]
fn unicast_send_reaches_its_receiver() {
    let mut boxes = MailboxSet::new();
    boxes.open_mailbox(40);
    let mut port = UnicastPort::new(6);
    assert!(matches!(port.send(&mut boxes, message(1)), Err(PortSendError::Unbound(_))));
    let route = Route { pid: 4, inbox: 40 };
    assert_eq!(port.bind_receiver(route), Ok(()));
    assert_eq!(port.bind_receiver(route), Err(PortBindError::AlreadyBound));
    assert!(port.send(&mut boxes, message(2)).is_ok());
    assert_eq!(txid(boxes.try_recv(40, 6)), Some(2));
    let mut bad = message(3);
    bad.push_attachment(mute(1));
    assert!(matches!(port.send(&mut boxes, bad), Err(PortSendError::InvalidMessage { .. })));
    assert!(matches!(boxes.try_recv(40, 6), TryRecv::Empty));
    assert_eq!(port.rebind_receiver(Route { pid: 5, inbox: 50 }), Ok(()));
    assert_eq!(port.receiver_pid(), Some(5));
    assert!(matches!(port.send(&mut boxes, message(3)), Err(PortSendError::ReceiverClosed(_))));
    assert_eq!(port.stats(), PortStats { accepted: 1, failed: 3 });
    port.freeze();
    assert_eq!(port.rebind_receiver(route), Err(PortBindError::Closed));
    assert!(matches!(port.send(&mut boxes, message(4)), Err(PortSendError::Closed(_))));
    port.close();
    assert_eq!((port.state, port.receiver_pid()), (PortState::Closed, None));
}

#[test]
fn fan_out_reaches_each_subscriber() {
    let mut boxes = MailboxSet::new();
    let mut port = FanoutPort::new(6);
    assert!(port.send(&mut boxes, message(1)).is_ok());
    for pid in 1..=3 {
        boxes.open_mailbox(10 * pid);
        assert_eq!(port.subscribe(Route { pid, inbox: 10 * pid }), Ok(()));
    }
    assert!(port.send(&mut boxes, message(2)).is_ok());
    for pid in 1..=3 {
        assert_eq!(txid(boxes.try_recv(10 * pid, 6)), Some(2));
    }
    let again = port.subscribe(Route { pid: 2, inbox: 20 });
    assert_eq!(again, Err(PortBindError::AlreadySubscribed));
    assert_eq!(port.subscriber_count(), 3);
    assert_eq!(port.unsubscribe(1), Ok(()));
    assert_eq!(port.unsubscribe(1), Err(PortBindError::NotSubscribed));
    let mut stuck = handle(9);
    stuck.clone_refusal = Some(ObjectError::ObjectDestroyed);
    let mut uncopied = message(3);
    uncopied.set_buffer(Some(stuck));
    assert!(matches!(
        port.send(&mut boxes, uncopied),
        Err(PortSendError::CloneFailed { error: ObjectError::ObjectDestroyed, .. })
    ));
    assert!(matches!(boxes.try_recv(20, 6), TryRecv::Empty));
    boxes.close_mailbox(30);
    assert!(matches!(port.send(&mut boxes, message(4)), Err(PortSendError::ReceiverClosed(_))));
    assert!(port.is_subscribed(2) && !port.is_subscribed(3));
    port.close();
    assert_eq!(port.subscriber_count(), 0);
    assert!(matches!(port.send(&mut boxes, message(5)), Err(PortSendError::Closed(_))));
    assert_eq!(port.subscribe(Route { pid: 2, inbox: 20 }), Err(PortBindError::Closed));
}

#[test]
fn broadcast_and_bus_share_the_fan_out() {
    let mut boxes = MailboxSet::new();
    boxes.open_mailbox(20);
    let mut broadcast = BroadcastPort::new(1);
    let mut bus = BusPort::new(2);
    assert_eq!((broadcast.kind(), bus.kind()), (PortKind::Broadcast, PortKind::Bus));
    let route = Route { pid: 2, inbox: 20 };
    assert_eq!(broadcast.inner.subscribe(route), Ok(()));
    assert_eq!(bus.inner.subscribe(route), Ok(()));
    assert_eq!(bus.subscribe(route), Err(PortBindError::AlreadySubscribed));
    assert_eq!((bus.id(), bus.state(), bus.subscriber_count()), (2, PortState::Open, 1));
    assert!(broadcast.is_subscribed(2) && !broadcast.is_subscribed(3));
    assert_eq!(broadcast.unsubscribe(3), Err(PortBindError::NotSubscribed));
    assert!(broadcast.send(&mut boxes, message(5)).is_ok());
    assert!(bus.publish(&mut boxes, message(6)).is_ok());
    assert_eq!(txid(boxes.try_recv(20, 2)), Some(6));
    assert_eq!(txid(boxes.try_recv(20, 1)), Some(5));
    assert_eq!(broadcast.stats(), PortStats { accepted: 1, failed: 0 });
    broadcast.freeze();
    assert_eq!((broadcast.id(), broadcast.state()), (1, PortState::Frozen));
    bus.close();
    assert_eq!((bus.state(), bus.subscriber_count()), (PortState::Closed, 0));
}

#[test]
fn descriptors_become_messages() {
    let mut handles = table();
    let (message, transfer) = into_message(input(), &handles).ok().unwrap();
    assert_eq!(message.inline_data(), &vec![5, 6]);
    assert_eq!(message.attachments(), &vec![handle(10)]);
    assert_eq!(message.buffer(), Some(handle(11)));
    assert_eq!(message.header().txid(), 7);
    assert!(transfer.commit(&mut handles).is_ok());
    assert_eq!((handles.get(0), handles.get(1)), (None, None));
}

#[test]
fn descriptors_fail_at_the_first_error() {
    let handles = table();
    let fault = Err(IpcError::Fault);
    let faulted = UserInput { words: None, ..input() };
    assert_eq!(failure(into_message(faulted, &handles)), Some(fault));
    let faulted = UserInput { slots: None, ..input() };
    assert_eq!(failure(into_message(faulted, &handles)), Some(fault));
    let lost = Ok(ObjectError::ObjectNotFound);
    let unknown = UserInput { slots: Some(vec![9]), ..input() };
    assert_eq!(failure(into_message(unknown, &handles)), Some(lost));
    let desc = PortUserMessage { reply_port_slot: Some(9), ..DESC };
    assert_eq!(failure(into_message(UserInput { desc, ..input() }, &handles)), Some(lost));
    let desc = PortUserMessage { inline_words_len: 0, handle_slots_len: 0, ..DESC };
    let plain = UserInput { desc, words: None, slots: None };
    assert!(into_message(plain, &handles).is_ok());
}

#[test]
fn received_handles_take_the_lowest_slots() {
    let full = || {
        let mut message = message(3);
        message.push_inline_word(5);
        message.push_attachment(handle(20));
        message.set_buffer(Some(handle(21)));
        message.set_reply_port(Some(handle(22)));
        message
    };
    let mut handles = HandleTable::new();
    handles.install_handle(1, handle(11));
    let writes = write_message(DESC, &mut handles, full(), NO_FAULTS).ok().unwrap();
    assert_eq!((writes.words, writes.slots), (vec![5], vec![0]));
    assert_eq!((writes.desc.buffer_slot, writes.desc.reply_port_slot), (Some(2), Some(3)));
    assert_eq!((writes.desc.txid, writes.desc.inline_words_len), (3, 1));
    assert_eq!(handles.get(2), Some(handle(21)));
    let small = PortUserMessage { inline_words_len: 0, ..DESC };
    let too_small = Err(IpcError::BufferTooSmall);
    assert_eq!(failure(write_message(small, &mut handles, full(), NO_FAULTS)), Some(too_small));
    let fault = Err(IpcError::Fault);
    let faults = UserFaults { words: true, ..NO_FAULTS };
    assert_eq!(failure(write_message(DESC, &mut handles, full(), faults)), Some(fault));
    assert_eq!(handles.get(4), None);
    let faults = UserFaults { slots: true, ..NO_FAULTS };
    assert_eq!(failure(write_message(DESC, &mut handles, full(), faults)), Some(fault));
    assert_eq!((handles.get(4), handles.get(5)), (Some(handle(20)), None));
    let faults = UserFaults { desc: true, ..NO_FAULTS };
    assert_eq!(failure(write_message(DESC, &mut handles, full(), faults)), Some(fault));
    assert_eq!(handles.get(7), Some(handle(22)));
}

#[test]
fn unicast_invocation_sends_and_receives() {
    let mut boxes = MailboxSet::new();
    boxes.open_mailbox(40);
    let mut port = UnicastPort::new(6);
    let mut handles = table();
    let admin = UnicastPortGuard { interface_caps: u32::MAX, mode: GuardMode::Admin };
    let mut run = |guard: UnicastPortGuard, request: PortRequest| {
        guard.dispatch(&mut port, request, &mut handles, &mut boxes)
    };
    let bind = finished(run(admin, request(PortMethod::BindReceiver)));
    assert_eq!(bind, one(4));
    let again = finished(run(admin, request(PortMethod::BindReceiver)));
    assert_eq!(again, ipc(IpcError::AlreadyBound));
    assert!(matches!(run(admin, request(PortMethod::Recv)), PortOutcome::Wait));
    assert_eq!(finished(run(admin, request(PortMethod::Send))), one(0));
    let repeated = finished(run(admin, request(PortMethod::Send)));
    assert_eq!(repeated, Err(ObjectError::ObjectNotFound));
    let PortOutcome::Received(writes) = run(admin, request(PortMethod::Recv)) else {
        panic!("the message is there");
    };
    assert_eq!((writes.words, writes.slots), (vec![5, 6], vec![0]));
    assert_eq!(writes.desc.buffer_slot, Some(1));
    let query = finished(run(admin, request(PortMethod::QueryState)));
    let values = ReplyValues { v0: 0, v1: 0, v2: 1, v3: 0, v4: 4 };
    assert_eq!(query, Ok(InvokeReply::Done(values)));
    let unheard = PortRequest { input: None, ..request(PortMethod::Send) };
    assert_eq!(finished(run(admin, unheard)), ipc(IpcError::Fault));
    let unknown = PortRequest { method: None, ..request(PortMethod::Send) };
    assert_eq!(finished(run(admin, unknown)), ipc(IpcError::InvalidArgument));
    let subscribe = finished(run(admin, request(PortMethod::Subscribe)));
    assert_eq!(subscribe, ipc(IpcError::InvalidArgument));
    let agent = UnicastPortGuard { mode: GuardMode::Agent, ..admin };
    assert_eq!(finished(run(agent, request(PortMethod::Close))), DENIED);
    assert_eq!(finished(run(agent, request(PortMethod::RebindReceiver))), DENIED);
    let poor = UnicastPortGuard { interface_caps: !P_CLOSE_PORT, ..admin };
    assert_eq!(finished(run(poor, request(PortMethod::Close))), DENIED);
    assert_eq!(finished(run(admin, request(PortMethod::Freeze))), one(0));
    assert_eq!(finished(run(admin, request(PortMethod::Send))), ipc(IpcError::PortClosed));
    assert_eq!(finished(run(admin, request(PortMethod::Close))), one(0));
    assert_eq!(port.state, PortState::Closed);
}

#[test]
fn planes_offer_their_methods() {
    let check = |mode: GuardMode, method| mode.require_method(u32::MAX, method, 1).is_ok();
    assert!(check(GuardMode::Read, PortMethod::QueryState));
    assert!(!check(GuardMode::Read, PortMethod::Send));
    assert!(check(GuardMode::Write, PortMethod::Subscribe));
    assert!(!check(GuardMode::Write, PortMethod::QueryState));
    assert!(check(GuardMode::Execute, PortMethod::Recv));
    assert!(!check(GuardMode::Execute, PortMethod::Close));
    assert!(check(GuardMode::Admin, PortMethod::Close));
    let poor = GuardMode::Admin.require_method(2, PortMethod::Close, 1);
    assert_eq!(poor, Err(ObjectError::InsufficientCapabilities));
}

#[test]
fn fan_out_invocations_follow_subscriptions() {
    let mut boxes = MailboxSet::new();
    boxes.open_mailbox(40);
    let mut port = BroadcastPort::new(6);
    let mut handles = table();
    let admin = BroadcastPortGuard { interface_caps: u32::MAX, mode: GuardMode::Admin };
    let mut run = |guard: BroadcastPortGuard, request: PortRequest| {
        guard.dispatch(&mut port, request, &mut handles, &mut boxes)
    };
    assert_eq!(
        finished(run(admin, request(PortMethod::Recv))),
        ipc(IpcError::NotSubscribed)
    );
    assert_eq!(finished(run(admin, request(PortMethod::Subscribe))), one(4));
    assert_eq!(finished(run(admin, request(PortMethod::Send))), one(0));
    assert!(matches!(run(admin, request(PortMethod::Recv)), PortOutcome::Received(_)));
    let query = finished(run(admin, request(PortMethod::QueryState)));
    let values = ReplyValues { v0: 1, v1: 0, v2: 1, v3: 0, v4: 1 };
    assert_eq!(query, Ok(InvokeReply::Done(values)));
    assert_eq!(finished(run(admin, request(PortMethod::Unsubscribe))), one(4));
    assert_eq!(
        finished(run(admin, request(PortMethod::BindReceiver))),
        ipc(IpcError::InvalidArgument)
    );
    let reader = BroadcastPortGuard { mode: GuardMode::Read, ..admin };
    assert_eq!(finished(run(reader, request(PortMethod::Subscribe))), DENIED);
    assert_eq!(port.inner.subscriber_count(), 0);
}

#[test]
fn bus_invocations_need_their_own_rights() {
    let mut boxes = MailboxSet::new();
    boxes.open_mailbox(40);
    let mut port = BusPort::new(6);
    let mut handles = table();
    let mut run = |interface_caps: u32, request: PortRequest| {
        let guard = BusPortGuard { interface_caps, mode: GuardMode::Admin };
        guard.dispatch(&mut port, request, &mut handles, &mut boxes)
    };
    assert_eq!(finished(run(P_SEND_MSG, request(PortMethod::Send))), DENIED);
    assert_eq!(finished(run(P_PUBLISH, request(PortMethod::Send))), one(0));
    assert_eq!(finished(run(P_RECV_MSG, request(PortMethod::Recv))), DENIED);
    assert_eq!(finished(run(u32::MAX, request(PortMethod::Subscribe))), one(4));
    assert!(matches!(run(P_LISTEN, request(PortMethod::Recv)), PortOutcome::Wait));
}

#[test]
fn reply_ports_hold_one_answer() {
    let mut port = ReplyPort::new();
    assert!(matches!(port.try_recv(), ReplyRecv::Empty));
    assert!(matches!(port.send(message(4)), ReplySend::Sent));
    assert!(matches!(port.send(message(5)), ReplySend::Full(_)));
    let ReplyRecv::Received(back) = port.try_recv() else {
        panic!("the reply is there");
    };
    assert_eq!(back.header().txid(), 4);
    let mut bad = message(6);
    bad.set_buffer(Some(mute(1)));
    assert!(matches!(
        port.send(bad),
        ReplySend::Failed(PortSendError::InvalidMessage { .. })
    ));
    port.close();
    assert!(matches!(
        port.send(message(7)),
        ReplySend::Failed(PortSendError::ReceiverClosed(_))
    ));
    assert!(matches!(port.try_recv(), ReplyRecv::Closed));
}

#[test]
fn reply_endpoints_split_the_rights() {
    let (owner, sender, receiver) = ReplyPort::create_endpoints(handle(3)).unwrap().into_parts();
    assert_eq!(owner, handle(3));
    assert!(sender.capabilities.execute && sender.capabilities.send);
    assert_eq!(sender.interface_caps, P_SEND_MSG);
    assert!(receiver.capabilities.read && receiver.capabilities.execute);
    assert!(!receiver.capabilities.send);
    assert_eq!(receiver.interface_caps, P_RECV_MSG | P_QUERY_STATE);
    let refused = Handle { derive_refusal: Some(ObjectError::ObjectDestroyed), ..handle(3) };
    assert_eq!(ReplyPort::create_endpoints(refused), Err(ObjectError::ObjectDestroyed));
}

#[test]
fn reply_invocations_answer_once() {
    let mut port = ReplyPort::new();
    let mut handles = table();
    let guard = ReplyPortGuard { interface_caps: u32::MAX, mode: GuardMode::Execute };
    let mut run = |guard: ReplyPortGuard, request: PortRequest| {
        guard.dispatch(&mut port, request, &mut handles)
    };
    assert!(matches!(run(guard, request(PortMethod::Recv)), PortOutcome::Wait));
    assert_eq!(finished(run(guard, request(PortMethod::Send))), one(0));
    assert_eq!(finished(run(guard, request(PortMethod::QueryState))), DENIED);
    assert_eq!(
        finished(run(guard, request(PortMethod::Close))),
        ipc(IpcError::InvalidArgument)
    );
    let admin = ReplyPortGuard { mode: GuardMode::Admin, ..guard };
    assert_eq!(finished(run(admin, request(PortMethod::QueryState))), one(0));
    assert!(matches!(run(guard, request(PortMethod::Recv)), PortOutcome::Received(_)));
    assert!(matches!(run(guard, request(PortMethod::Send)), PortOutcome::Finished(Ok(_))));
    let blind = PortRequest { desc: None, ..request(PortMethod::Recv) };
    assert_eq!(finished(run(guard, blind)), ipc(IpcError::Fault));
    assert!(matches!(run(guard, request(PortMethod::Recv)), PortOutcome::Wait));
}
