//! Conversion between messages and the descriptors that user space passes.
//!
//! Memory of the caller is copied by the system-call layer: what it read is
//! handed in as values, what is to be written is handed back as values.

use super::frame::IpcError;
use super::message::{Message, MessageFlags, MessageHeader, MessageView, shape_flags};
use crate::error::ObjectOrUnderlyingError;
use crate::object::{
    Handle, HandleTable, ObjectError, acquire_all, close_all, closes_all, lemma_room,
    slots_in_turn, table_after,
};
use vstd::prelude::*;

verus! {

pub type PortUserMessageError = ObjectOrUnderlyingError<IpcError>;

/// Message descriptor in the memory of the caller.
#[derive(Debug, Clone, Copy, PartialEq, Eq, Structural)]
pub struct PortUserMessage {
    pub txid: u64,
    pub proto_id: u32,
    pub opcode: u32,
    pub inline_words_ptr: usize,
    pub inline_words_len: usize,
    pub handle_slots_ptr: usize,
    pub handle_slots_len: usize,
    pub buffer_slot: Option<u32>,
    pub reply_port_slot: Option<u32>,
}

/// What the system-call layer copied in for a send: `None` where the copy
/// faulted.
pub struct UserInput {
    pub desc: PortUserMessage,
    pub words: Option<Vec<usize>>,
    pub slots: Option<Vec<u32>>,
}

/// Slots whose handles travel with a message.
pub struct PortCapabilityTransfer {
    attachment_slots: Vec<u32>,
    buffer_slot: Option<u32>,
    reply_port_slot: Option<u32>,
}

/// The slots of an optional handle.
pub open spec fn slot_seq(slot: Option<u32>) -> Seq<u32> {
    match slot {
        Some(slot) => seq![slot],
        None => Seq::empty(),
    }
}

impl PortCapabilityTransfer {
    /// All slots in the order in which they are given up.
    pub closed spec fn slots(&self) -> Seq<u32> {
        self.attachment_slots@ + slot_seq(self.buffer_slot) + slot_seq(self.reply_port_slot)
    }

    fn empty() -> (transfer: Self)
        ensures
            transfer.slots() == Seq::<u32>::empty(),
    {
        let transfer = PortCapabilityTransfer {
            attachment_slots: Vec::new(),
            buffer_slot: None,
            reply_port_slot: None,
        };
        assert(transfer.slots() =~= Seq::<u32>::empty());
        transfer
    }

    /// Gives the transferred slots up, in order; stops at the first that is no
    /// longer in use.
    pub fn commit(self, handles: &mut HandleTable) -> (result: Result<(), PortUserMessageError>)
        requires
            old(handles).wf(),
        ensures
            final(handles).wf(),
            final(handles)@ == close_all(old(handles)@, self.slots()),
            result == (if closes_all(old(handles)@, self.slots()) {
                Ok::<(), PortUserMessageError>(())
            } else {
                Err::<(), PortUserMessageError>(
                    ObjectOrUnderlyingError::Object(ObjectError::ObjectNotFound),
                )
            }),
    {
        let ghost all = self.slots();
        let mut slots = self.attachment_slots;
        match self.buffer_slot {
            Some(slot) => slots.push(slot),
            None => {},
        }
        match self.reply_port_slot {
            Some(slot) => slots.push(slot),
            None => {},
        }
        assert(slots@ =~= all);
        match handles.close_handles(&slots) {
            Ok(()) => Ok(()),
            Err(error) => Err(ObjectOrUnderlyingError::Object(error)),
        }
    }
}

/// The inline words of a send, or a fault.
pub open spec fn input_words(input: UserInput) -> Option<Seq<usize>> {
    if input.desc.inline_words_len == 0 {
        Some(Seq::empty())
    } else {
        match input.words {
            Some(words) => Some(words@),
            None => None,
        }
    }
}

/// The attachment slots of a send, or a fault.
pub open spec fn input_slots(input: UserInput) -> Option<Seq<u32>> {
    if input.desc.handle_slots_len == 0 {
        Some(Seq::empty())
    } else {
        match input.slots {
            Some(slots) => Some(slots@),
            None => None,
        }
    }
}

/// A reference to an optional handle.
pub open spec fn acquire_optional(table: Map<u64, Handle>, slot: Option<u32>) -> Result<
    Option<Handle>,
    ObjectError,
> {
    match slot {
        None => Ok(None),
        Some(slot) => match HandleTable::acquired(table, slot) {
            Ok(handle) => Ok(Some(handle)),
            Err(error) => Err(error),
        },
    }
}

/// The message that a descriptor describes, or the first error on the way:
/// inline words, attachments, buffer, reply port.
pub open spec fn marshalled(input: UserInput, table: Map<u64, Handle>) -> Result<
    MessageView,
    PortUserMessageError,
> {
    match input_words(input) {
        None => Err(ObjectOrUnderlyingError::Underlying(IpcError::Fault)),
        Some(words) => match input_slots(input) {
            None => Err(ObjectOrUnderlyingError::Underlying(IpcError::Fault)),
            Some(slots) => match acquire_all(table, slots) {
                Err(error) => Err(ObjectOrUnderlyingError::Object(error)),
                Ok(attachments) => match acquire_optional(table, input.desc.buffer_slot) {
                    Err(error) => Err(ObjectOrUnderlyingError::Object(error)),
                    Ok(buffer) => match acquire_optional(table, input.desc.reply_port_slot) {
                        Err(error) => Err(ObjectOrUnderlyingError::Object(error)),
                        Ok(reply_port) => Ok(
                            MessageView {
                                header: (MessageHeader {
                                    txid: input.desc.txid,
                                    proto_id: input.desc.proto_id,
                                    opcode: input.desc.opcode,
                                    flags: (MessageFlags {
                                        bits: shape_flags(words, attachments, buffer, reply_port),
                                    }),
                                }),
                                inline_data: words,
                                attachments,
                                buffer,
                                reply_port,
                            },
                        ),
                    },
                },
            },
        },
    }
}

/// The slots that a send gives up.
pub open spec fn transferred_slots(input: UserInput) -> Seq<u32> {
    input_slots(input)->Some_0 + slot_seq(input.desc.buffer_slot) + slot_seq(
        input.desc.reply_port_slot,
    )
}

/// Builds the message that the descriptor describes.
pub fn into_message(input: UserInput, handles: &HandleTable) -> (result: Result<
    (Message, PortCapabilityTransfer),
    PortUserMessageError,
>)
    requires
        handles.wf(),
    ensures
        match result {
            Ok((message, transfer)) => marshalled(input, handles@) == Ok::<
                MessageView,
                PortUserMessageError,
            >(message@) && transfer.slots() == transferred_slots(input),
            Err(error) => marshalled(input, handles@) == Err::<MessageView, PortUserMessageError>(
                error,
            ),
        },
{
    let ghost whole = input;
    let mut message = Message::new(
        MessageHeader::new(input.desc.txid, input.desc.proto_id, input.desc.opcode),
    );
    let mut transfer = PortCapabilityTransfer::empty();
    if input.desc.inline_words_len != 0 {
        match input.words {
            Some(words) => {
                message.set_inline_data(words);
            },
            None => {
                return Err(ObjectOrUnderlyingError::Underlying(IpcError::Fault));
            },
        }
    }
    let ghost words = input_words(whole)->Some_0;
    assert(message@.inline_data =~= words);
    if input.desc.handle_slots_len != 0 {
        match input.slots {
            Some(slots) => {
                match handles.acquire_handles(&slots) {
                    Err(error) => {
                        return Err(ObjectOrUnderlyingError::Object(error));
                    },
                    Ok(list) => {
                        let mut i: usize = 0;
                        let ghost start = message@;
                        while i < list.len()
                            invariant
                                i <= list@.len(),
                                message@.attachments == list@.take(i as int),
                                message@.inline_data == start.inline_data,
                                message@.buffer is None,
                                message@.reply_port is None,
                                message@.header.txid == start.header.txid,
                                message@.header.proto_id == start.header.proto_id,
                                message@.header.opcode == start.header.opcode,
                                i > 0 || message@ == start,
                                i > 0 ==> message@.flags_in_sync(),
                            decreases list@.len() - i,
                        {
                            message.push_attachment(list[i]);
                            assert(message@.attachments =~= list@.take(i + 1));
                            i = i + 1;
                        }
                        assert(message@.attachments =~= list@);
                        transfer.attachment_slots = slots;
                    },
                }
            },
            None => {
                return Err(ObjectOrUnderlyingError::Underlying(IpcError::Fault));
            },
        }
    } else {
        assert(acquire_all(handles@, Seq::<u32>::empty()) == Ok::<Seq<Handle>, ObjectError>(
            Seq::<Handle>::empty(),
        ));
        assert(message@.attachments =~= Seq::<Handle>::empty());
    }
    let ghost attachments = acquire_all(handles@, input_slots(whole)->Some_0)->Ok_0;
    assert(message@.attachments =~= attachments);
    assert(message@.flags_in_sync());
    match input.desc.buffer_slot {
        Some(slot) => match handles.acquire_handle(slot) {
            Ok(handle) => {
                message.set_buffer(Some(handle));
                transfer.buffer_slot = Some(slot);
            },
            Err(error) => {
                return Err(ObjectOrUnderlyingError::Object(error));
            },
        },
        None => {},
    }
    match input.desc.reply_port_slot {
        Some(slot) => match handles.acquire_handle(slot) {
            Ok(handle) => {
                message.set_reply_port(Some(handle));
                transfer.reply_port_slot = Some(slot);
            },
            Err(error) => {
                return Err(ObjectOrUnderlyingError::Object(error));
            },
        },
        None => {},
    }
    assert(transfer.slots() =~= transferred_slots(whole));
    assert(message@ == marshalled(whole, handles@)->Ok_0);
    Ok((message, transfer))
}

/// Which of the copies back to the caller fault.
#[derive(Debug, Clone, Copy, PartialEq, Eq, Structural)]
pub struct UserFaults {
    pub words: bool,
    pub slots: bool,
    pub desc: bool,
}

/// What is to be written back to the caller for a receive.
pub struct UserWrites {
    pub words: Vec<usize>,
    pub slots: Vec<u32>,
    pub desc: PortUserMessage,
}

/// The handles of an optional handle.
pub open spec fn handle_seq(handle: Option<Handle>) -> Seq<Handle> {
    match handle {
        Some(handle) => seq![handle],
        None => Seq::empty(),
    }
}

/// All handles of a message in the order in which they are installed.
pub open spec fn message_handles(message: MessageView) -> Seq<Handle> {
    message.attachments + handle_seq(message.buffer) + handle_seq(message.reply_port)
}

/// Whether the receiver's descriptor has room for the message.
pub open spec fn fits(desc: PortUserMessage, message: MessageView) -> bool {
    desc.inline_words_len >= message.inline_data.len() && desc.handle_slots_len
        >= message.attachments.len()
}

/// The slots of a complete receive, in the order in which they were filled.
pub open spec fn written_slots(writes: UserWrites) -> Seq<u32> {
    writes.slots@ + slot_seq(writes.desc.buffer_slot) + slot_seq(writes.desc.reply_port_slot)
}

/// Whether each of the handles has been put into the lowest free slot, in turn.
pub open spec fn installed_in_turn(
    before: Map<u64, Handle>,
    after: Map<u64, Handle>,
    handles: Seq<Handle>,
) -> bool {
    exists|slots: Seq<u32>|
        slots.len() == handles.len() && #[trigger] slots_in_turn(before, handles, slots) && after
            == table_after(before, handles, slots)
}

/// What handing a received message to the caller comes to. A fault after the
/// handles have been installed leaves them installed.
pub open spec fn write_effect(
    desc: PortUserMessage,
    message: MessageView,
    faults: UserFaults,
    before: Map<u64, Handle>,
    after: Map<u64, Handle>,
    result: Result<UserWrites, PortUserMessageError>,
) -> bool {
    &&& result is Ok <==> fits(desc, message) && !(message.inline_data.len() > 0 && faults.words)
        && !(message.attachments.len() > 0 && faults.slots) && !faults.desc
    &&& match result {
        Ok(writes) => {
            let slots = written_slots(writes);
            &&& writes.words@ == message.inline_data
            &&& writes.slots@.len() == message.attachments.len()
            &&& slots.len() == message_handles(message).len()
            &&& slots_in_turn(before, message_handles(message), slots)
            &&& after == table_after(before, message_handles(message), slots)
            &&& writes.desc.buffer_slot is Some <==> message.buffer is Some
            &&& writes.desc.reply_port_slot is Some <==> message.reply_port is Some
            &&& writes.desc == (PortUserMessage {
                txid: message.header.txid,
                proto_id: message.header.proto_id,
                opcode: message.header.opcode,
                inline_words_len: message.inline_data.len() as usize,
                handle_slots_len: message.attachments.len() as usize,
                buffer_slot: writes.desc.buffer_slot,
                reply_port_slot: writes.desc.reply_port_slot,
                ..desc
            })
        },
        Err(error) => {
            &&& error == (if !fits(desc, message) {
                PortUserMessageError::Underlying(IpcError::BufferTooSmall)
            } else {
                PortUserMessageError::Underlying(IpcError::Fault)
            })
            &&& if !fits(desc, message) || (message.inline_data.len() > 0 && faults.words) {
                after == before
            } else if message.attachments.len() > 0 && faults.slots {
                installed_in_turn(before, after, message.attachments)
            } else {
                installed_in_turn(before, after, message_handles(message))
            }
        },
    }
}

/// Hands a received message to the caller: its handles go into the handle
/// table, its words and slots into the descriptor's buffers.
pub fn write_message(
    desc: PortUserMessage,
    handles: &mut HandleTable,
    message: Message,
    faults: UserFaults,
) -> (result: Result<UserWrites, PortUserMessageError>)
    requires
        old(handles).wf(),
        old(handles)@.dom().len() + message_handles(message@).len() <= 0x1_0000_0000,
    ensures
        final(handles).wf(),
        write_effect(desc, message@, faults, old(handles)@, final(handles)@, result),
{
    let mut message = message;
    let ghost view = message@;
    let ghost all = message_handles(view);
    let words_len: usize = message.inline_data().len();
    let handle_count: usize = message.attachments().len();
    if desc.inline_words_len < words_len || desc.handle_slots_len < handle_count {
        return Err(ObjectOrUnderlyingError::Underlying(IpcError::BufferTooSmall));
    }
    if words_len != 0 && faults.words {
        return Err(ObjectOrUnderlyingError::Underlying(IpcError::Fault));
    }
    let mut words: Vec<usize> = Vec::new();
    let mut i: usize = 0;
    while i < words_len
        invariant
            i <= words_len,
            words_len == message@.inline_data.len(),
            message@ == view,
            words@ == view.inline_data.take(i as int),
        decreases words_len - i,
    {
        words.push(message.inline_data()[i]);
        assert(words@ =~= view.inline_data.take(i + 1));
        i = i + 1;
    }
    assert(words@ =~= view.inline_data);
    let attachments = message.take_attachments();
    let slots = handles.install_handles(&attachments);
    assert(installed_in_turn(old(handles)@, handles@, view.attachments));
    if handle_count != 0 && faults.slots {
        return Err(ObjectOrUnderlyingError::Underlying(IpcError::Fault));
    }
    proof {
        lemma_more_handles(old(handles)@, attachments@, all, slots@);
        handles.lemma_finite();
    }
    let ghost mut filled = slots@;
    let buffer_slot = match message.take_buffer() {
        Some(handle) => {
            proof {
                lemma_room(handles@);
            }
            let slot: u32 = handles.install_handle_auto(handle);
            proof {
                assert(all[filled.len() as int] == handle);
                assert(filled.push(slot).drop_last() =~= filled);
                filled = filled.push(slot);
                assert(slots_in_turn(old(handles)@, all, filled));
                handles.lemma_finite();
            }
            Some(slot)
        },
        None => None,
    };
    let reply_port_slot = match message.take_reply_port() {
        Some(handle) => {
            proof {
                lemma_room(handles@);
            }
            let slot: u32 = handles.install_handle_auto(handle);
            proof {
                assert(all[filled.len() as int] == handle);
                assert(filled.push(slot).drop_last() =~= filled);
                filled = filled.push(slot);
                assert(slots_in_turn(old(handles)@, all, filled));
            }
            Some(slot)
        },
        None => None,
    };
    if faults.desc {
        return Err(ObjectOrUnderlyingError::Underlying(IpcError::Fault));
    }
    let header = message.header();
    let writes = UserWrites {
        words,
        slots,
        desc: PortUserMessage {
            txid: header.txid(),
            proto_id: header.proto_id(),
            opcode: header.opcode(),
            inline_words_ptr: desc.inline_words_ptr,
            inline_words_len: words_len,
            handle_slots_ptr: desc.handle_slots_ptr,
            handle_slots_len: handle_count,
            buffer_slot,
            reply_port_slot,
        },
    };
    assert(written_slots(writes) =~= filled);
    Ok(writes)
}

/// Handles after those that were installed do not matter.
proof fn lemma_more_handles(
    table: Map<u64, Handle>,
    some: Seq<Handle>,
    all: Seq<Handle>,
    slots: Seq<u32>,
)
    requires
        slots.len() <= some.len(),
        some.len() <= all.len(),
        forall|i: int| 0 <= i < some.len() ==> some[i] == all[i],
    ensures
        table_after(table, some, slots) == table_after(table, all, slots),
        slots_in_turn(table, some, slots) == slots_in_turn(table, all, slots),
    decreases slots.len(),
{
    if slots.len() > 0 {
        lemma_more_handles(table, some, all, slots.drop_last());
    }
}

} // verus!
