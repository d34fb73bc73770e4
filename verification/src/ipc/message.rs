//! Messages and the rules by which they may travel.

use crate::object::{Handle, ObjectError};
use vstd::prelude::*;

verus! {

/// Set of message shape flags.
#[derive(Debug, Clone, Copy, PartialEq, Eq, Structural)]
pub struct MessageFlags {
    pub bits: u32,
}

pub const FLAG_INLINE_DATA: u32 = 1;

pub const FLAG_ATTACHMENTS: u32 = 2;

pub const FLAG_BUFFER: u32 = 4;

pub const FLAG_REPLY_PORT: u32 = 8;

/// Transport-neutral message header.
#[derive(Debug, Clone, Copy, PartialEq, Eq, Structural)]
pub struct MessageHeader {
    pub txid: u64,
    pub proto_id: u32,
    pub opcode: u32,
    pub flags: MessageFlags,
}

impl MessageHeader {
    /// A header with no shape flag set.
    pub fn new(txid: u64, proto_id: u32, opcode: u32) -> (header: Self)
        ensures
            header == (MessageHeader { txid, proto_id, opcode, flags: (MessageFlags { bits: 0 }) }),
    {
        MessageHeader { txid, proto_id, opcode, flags: MessageFlags { bits: 0 } }
    }

    pub fn txid(&self) -> (txid: u64)
        ensures
            txid == self.txid,
    {
        self.txid
    }

    pub fn proto_id(&self) -> (proto_id: u32)
        ensures
            proto_id == self.proto_id,
    {
        self.proto_id
    }

    pub fn opcode(&self) -> (opcode: u32)
        ensures
            opcode == self.opcode,
    {
        self.opcode
    }

    pub fn flags(&self) -> (flags: MessageFlags)
        ensures
            flags == self.flags,
    {
        self.flags
    }
}

/// Why a message may not travel.
#[derive(Debug, Clone, Copy, PartialEq, Eq, Structural)]
pub enum MessageValidationError {
    /// A transferred attachment does not carry `SEND`.
    AttachmentMissingSend { index: usize },
    /// The buffer descriptor does not carry `SEND`.
    BufferMissingSend,
    /// The reply port does not carry `SEND`.
    ReplyPortMissingSend,
}

/// Contents of a message.
#[verifier::ext_equal]
pub struct MessageView {
    pub header: MessageHeader,
    pub inline_data: Seq<usize>,
    pub attachments: Seq<Handle>,
    pub buffer: Option<Handle>,
    pub reply_port: Option<Handle>,
}

/// The flags that describe which parts a message has.
pub open spec fn shape_flags(
    inline_data: Seq<usize>,
    attachments: Seq<Handle>,
    buffer: Option<Handle>,
    reply_port: Option<Handle>,
) -> u32 {
    (((if inline_data.len() > 0 {
        1int
    } else {
        0
    }) + (if attachments.len() > 0 {
        2int
    } else {
        0
    }) + (if buffer is Some {
        4int
    } else {
        0
    }) + (if reply_port is Some {
        8int
    } else {
        0
    })) as u32)
}

impl MessageView {
    /// The header flags describe the parts that are there.
    pub open spec fn flags_in_sync(self) -> bool {
        self.header.flags.bits == shape_flags(
            self.inline_data,
            self.attachments,
            self.buffer,
            self.reply_port,
        )
    }

    /// The same message with its flags recomputed.
    pub open spec fn synced(self) -> MessageView {
        MessageView {
            header: (MessageHeader {
                flags: (MessageFlags {
                    bits: shape_flags(
                        self.inline_data,
                        self.attachments,
                        self.buffer,
                        self.reply_port,
                    ),
                }),
                ..self.header
            }),
            ..self
        }
    }

    /// Position of the first attachment without `SEND`.
    pub open spec fn first_unsendable(self, index: int) -> bool {
        &&& 0 <= index < self.attachments.len()
        &&& !self.attachments[index].capabilities.send
        &&& forall|j: int| 0 <= j < index ==> (#[trigger] self.attachments[j]).capabilities.send
    }

    /// What the validation of the message comes to.
    pub open spec fn validation(self, result: Result<(), MessageValidationError>) -> bool {
        match result {
            Err(MessageValidationError::AttachmentMissingSend { index }) => self.first_unsendable(
                index as int,
            ),
            _ => {
                &&& forall|j: int|
                    0 <= j < self.attachments.len() ==> (
                    #[trigger] self.attachments[j]).capabilities.send
                &&& if self.buffer is Some && !self.buffer->Some_0.capabilities.send {
                    result == Err::<(), MessageValidationError>(
                        MessageValidationError::BufferMissingSend,
                    )
                } else if self.reply_port is Some && !self.reply_port->Some_0.capabilities.send {
                    result == Err::<(), MessageValidationError>(
                        MessageValidationError::ReplyPortMissingSend,
                    )
                } else {
                    result is Ok
                }
            },
        }
    }

    /// Whether every capability in the message may travel.
    pub open spec fn sendable(self) -> bool {
        &&& forall|j: int|
            0 <= j < self.attachments.len() ==> (#[trigger] self.attachments[j]).capabilities.send
        &&& self.buffer is Some ==> self.buffer->Some_0.capabilities.send
        &&& self.reply_port is Some ==> self.reply_port->Some_0.capabilities.send
    }

    /// The first refusal that cloning meets, in the order attachments, buffer,
    /// reply port.
    pub open spec fn clone_refusal(self) -> Option<ObjectError> {
        match first_refusal(self.attachments) {
            Some(error) => Some(error),
            None => if self.buffer is Some && self.buffer->Some_0.clone_refusal is Some {
                self.buffer->Some_0.clone_refusal
            } else if self.reply_port is Some && self.reply_port->Some_0.clone_refusal is Some {
                self.reply_port->Some_0.clone_refusal
            } else {
                None
            },
        }
    }
}

/// The first refusal to clone in a list of handles.
pub open spec fn first_refusal(handles: Seq<Handle>) -> Option<ObjectError>
    decreases handles.len(),
{
    if handles.len() == 0 {
        None
    } else if handles[0].clone_refusal is Some {
        handles[0].clone_refusal
    } else {
        first_refusal(handles.subrange(1, handles.len() as int))
    }
}

/// A refusal after a prefix without refusals is the first one.
proof fn lemma_first_refusal(handles: Seq<Handle>, prefix: int)
    requires
        0 <= prefix <= handles.len(),
        forall|j: int| 0 <= j < prefix ==> (#[trigger] handles[j]).clone_refusal is None,
    ensures
        prefix < handles.len() && handles[prefix].clone_refusal is Some ==> first_refusal(handles)
            == handles[prefix].clone_refusal,
        prefix == handles.len() ==> first_refusal(handles) is None,
    decreases handles.len(),
{
    if handles.len() > 0 && prefix > 0 {
        assert(handles[0].clone_refusal is None);
        let rest = handles.subrange(1, handles.len() as int);
        assert forall|j: int| 0 <= j < prefix - 1 implies (#[trigger] rest[j]).clone_refusal
            is None by {
            assert(rest[j] == handles[j + 1]);
        }
        lemma_first_refusal(rest, prefix - 1);
    }
}

/// Routed message.
pub struct Message {
    header: MessageHeader,
    inline_data: Vec<usize>,
    attachments: Vec<Handle>,
    buffer: Option<Handle>,
    reply_port: Option<Handle>,
}

impl View for Message {
    type V = MessageView;

    closed spec fn view(&self) -> MessageView {
        MessageView {
            header: self.header,
            inline_data: self.inline_data@,
            attachments: self.attachments@,
            buffer: self.buffer,
            reply_port: self.reply_port,
        }
    }
}

impl Message {
    /// An empty message with the given header.
    pub fn new(header: MessageHeader) -> (message: Self)
        ensures
            message@.header == header,
            message@.inline_data == Seq::<usize>::empty(),
            message@.attachments == Seq::<Handle>::empty(),
            message@.buffer is None,
            message@.reply_port is None,
    {
        Message {
            header,
            inline_data: Vec::new(),
            attachments: Vec::new(),
            buffer: None,
            reply_port: None,
        }
    }

    pub fn header(&self) -> (header: MessageHeader)
        ensures
            header == self@.header,
    {
        self.header
    }

    pub fn inline_data(&self) -> (words: &Vec<usize>)
        ensures
            words@ == self@.inline_data,
    {
        &self.inline_data
    }

    pub fn attachments(&self) -> (handles: &Vec<Handle>)
        ensures
            handles@ == self@.attachments,
    {
        &self.attachments
    }

    pub fn buffer(&self) -> (handle: Option<Handle>)
        ensures
            handle == self@.buffer,
    {
        self.buffer
    }

    pub fn reply_port(&self) -> (handle: Option<Handle>)
        ensures
            handle == self@.reply_port,
    {
        self.reply_port
    }

    fn sync_flags(&mut self)
        ensures
            final(self)@ == old(self)@.synced(),
    {
        let mut bits: u32 = 0;
        if self.inline_data.len() > 0 {
            bits = bits + FLAG_INLINE_DATA;
        }
        if self.attachments.len() > 0 {
            bits = bits + FLAG_ATTACHMENTS;
        }
        if self.buffer.is_some() {
            bits = bits + FLAG_BUFFER;
        }
        if self.reply_port.is_some() {
            bits = bits + FLAG_REPLY_PORT;
        }
        self.header.flags = MessageFlags { bits };
    }

    /// Appends an inline word.
    pub fn push_inline_word(&mut self, word: usize)
        ensures
            final(self)@ == (MessageView {
                inline_data: old(self)@.inline_data.push(word),
                ..old(self)@
            }).synced(),
    {
        self.inline_data.push(word);
        self.sync_flags();
    }

    /// Replaces the inline words.
    pub fn set_inline_data(&mut self, words: Vec<usize>)
        ensures
            final(self)@ == (MessageView { inline_data: words@, ..old(self)@ }).synced(),
    {
        self.inline_data = words;
        self.sync_flags();
    }

    /// Attaches a handle.
    pub fn push_attachment(&mut self, handle: Handle)
        ensures
            final(self)@ == (MessageView {
                attachments: old(self)@.attachments.push(handle),
                ..old(self)@
            }).synced(),
    {
        self.attachments.push(handle);
        self.sync_flags();
    }

    pub fn set_buffer(&mut self, handle: Option<Handle>)
        ensures
            final(self)@ == (MessageView { buffer: handle, ..old(self)@ }).synced(),
    {
        self.buffer = handle;
        self.sync_flags();
    }

    pub fn set_reply_port(&mut self, handle: Option<Handle>)
        ensures
            final(self)@ == (MessageView { reply_port: handle, ..old(self)@ }).synced(),
    {
        self.reply_port = handle;
        self.sync_flags();
    }

    /// Takes all attachments out.
    pub fn take_attachments(&mut self) -> (handles: Vec<Handle>)
        ensures
            handles@ == old(self)@.attachments,
            final(self)@ == (MessageView {
                attachments: Seq::<Handle>::empty(),
                ..old(self)@
            }).synced(),
    {
        let mut handles: Vec<Handle> = Vec::new();
        std::mem::swap(&mut handles, &mut self.attachments);
        self.sync_flags();
        handles
    }

    pub fn take_buffer(&mut self) -> (handle: Option<Handle>)
        ensures
            handle == old(self)@.buffer,
            final(self)@ == (MessageView { buffer: None, ..old(self)@ }).synced(),
    {
        let handle = self.buffer;
        self.buffer = None;
        self.sync_flags();
        handle
    }

    pub fn take_reply_port(&mut self) -> (handle: Option<Handle>)
        ensures
            handle == old(self)@.reply_port,
            final(self)@ == (MessageView { reply_port: None, ..old(self)@ }).synced(),
    {
        let handle = self.reply_port;
        self.reply_port = None;
        self.sync_flags();
        handle
    }

    /// Checks that every capability in the message may travel: attachments
    /// first, then the buffer, then the reply port.
    pub fn validate(&self) -> (result: Result<(), MessageValidationError>)
        ensures
            self@.validation(result),
            result is Ok <==> self@.sendable(),
    {
        let mut index: usize = 0;
        while index < self.attachments.len()
            invariant
                index <= self.attachments@.len(),
                forall|j: int|
                    0 <= j < index ==> (#[trigger] self@.attachments[j]).capabilities.send,
            decreases self.attachments@.len() - index,
        {
            if !self.attachments[index].can_send() {
                return Err(MessageValidationError::AttachmentMissingSend { index });
            }
            index = index + 1;
        }
        match self.buffer {
            Some(handle) => if !handle.can_send() {
                return Err(MessageValidationError::BufferMissingSend);
            },
            None => {},
        }
        match self.reply_port {
            Some(handle) => if !handle.can_send() {
                return Err(MessageValidationError::ReplyPortMissingSend);
            },
            None => {},
        }
        Ok(())
    }

    /// A copy of the message for one more receiver, if every handle in it can
    /// be cloned.
    pub fn try_clone_for_fanout(&self) -> (result: Result<Message, ObjectError>)
        ensures
            match result {
                Ok(copy) => copy@ == self@ && self@.clone_refusal() is None,
                Err(error) => self@.clone_refusal() == Some(error),
            },
    {
        let mut attachments: Vec<Handle> = Vec::new();
        let mut index: usize = 0;
        while index < self.attachments.len()
            invariant
                index <= self.attachments@.len(),
                attachments@ == self.attachments@.take(index as int),
                forall|j: int|
                    0 <= j < index ==> (#[trigger] self.attachments@[j]).clone_refusal is None,
            decreases self.attachments@.len() - index,
        {
            proof {
                lemma_first_refusal(self.attachments@, index as int);
            }
            match self.attachments[index].try_clone() {
                Ok(handle) => {
                    attachments.push(handle);
                    assert(attachments@ =~= self.attachments@.take(index + 1));
                },
                Err(error) => {
                    return Err(error);
                },
            }
            index = index + 1;
        }
        proof {
            lemma_first_refusal(self.attachments@, index as int);
            assert(attachments@ =~= self.attachments@);
        }
        let buffer = match self.buffer {
            Some(handle) => match handle.try_clone() {
                Ok(copy) => Some(copy),
                Err(error) => {
                    return Err(error);
                },
            },
            None => None,
        };
        let reply_port = match self.reply_port {
            Some(handle) => match handle.try_clone() {
                Ok(copy) => Some(copy),
                Err(error) => {
                    return Err(error);
                },
            },
            None => None,
        };
        let mut inline_data: Vec<usize> = Vec::new();
        let mut word: usize = 0;
        while word < self.inline_data.len()
            invariant
                word <= self.inline_data@.len(),
                inline_data@ == self.inline_data@.take(word as int),
            decreases self.inline_data@.len() - word,
        {
            inline_data.push(self.inline_data[word]);
            assert(inline_data@ =~= self.inline_data@.take(word + 1));
            word = word + 1;
        }
        assert(inline_data@ =~= self.inline_data@);
        Ok(Message { header: self.header, inline_data, attachments, buffer, reply_port })
    }
}

/// Recomputing the flags brings them in sync and touches nothing else.
pub proof fn law_synced_flags(message: MessageView)
    ensures
        message.synced().flags_in_sync(),
        message.synced().inline_data == message.inline_data,
        message.synced().attachments == message.attachments,
        message.synced().buffer == message.buffer,
        message.synced().reply_port == message.reply_port,
        message.synced().header.txid == message.header.txid,
        message.synced().header.proto_id == message.header.proto_id,
        message.synced().header.opcode == message.header.opcode,
        message.synced().synced() == message.synced(),
{
}

/// The flags of a message say which parts it has.
pub proof fn law_flags_tell_the_parts(message: MessageView)
    requires
        message.flags_in_sync(),
    ensures
        ({
            let bits = message.header.flags.bits;
            &&& bits % 2 == 1 <==> message.inline_data.len() > 0
            &&& bits / 2 % 2 == 1 <==> message.attachments.len() > 0
            &&& bits / 4 % 2 == 1 <==> message.buffer is Some
            &&& bits / 8 % 2 == 1 <==> message.reply_port is Some
            &&& bits < 16
        }),
{
}

/// A message may be sent exactly where all of its handles may. Otherwise it is
/// told which one may not: the first attachment, else the buffer, else the reply
/// port.
pub proof fn law_messages_are_sent_with_sendable_handles(
    message: MessageView,
    result: Result<(), MessageValidationError>,
)
    requires
        message.validation(result),
    ensures
        result is Ok <==> (forall|j: int|
            0 <= j < message.attachments.len() ==> (
            #[trigger] message.attachments[j]).capabilities.send) && (message.buffer
            matches Some(buffer) ==> buffer.capabilities.send) && (message.reply_port
            matches Some(port) ==> port.capabilities.send),
        result matches Err(MessageValidationError::AttachmentMissingSend { index }) ==> index
            < message.attachments.len() && !message.attachments[index as int].capabilities.send
            && forall|j: int|
            0 <= j < index ==> (#[trigger] message.attachments[j]).capabilities.send,
        result matches Err(MessageValidationError::BufferMissingSend) ==> message.buffer is Some
            && !message.buffer->Some_0.capabilities.send,
        result matches Err(MessageValidationError::ReplyPortMissingSend) ==> message.reply_port
            is Some && !message.reply_port->Some_0.capabilities.send && (message.buffer
            matches Some(buffer) ==> buffer.capabilities.send),
{
}

/// A message can be cloned exactly where all of its handles can.
pub proof fn law_messages_are_cloned_with_their_handles(message: MessageView)
    ensures
        message.clone_refusal() is None <==> (forall|j: int|
            0 <= j < message.attachments.len() ==> (#[trigger] message.attachments[j]).clone_refusal
                is None) && (message.buffer matches Some(buffer) ==> buffer.clone_refusal is None)
            && (message.reply_port matches Some(port) ==> port.clone_refusal is None),
{
    lemma_refusals(message.attachments);
}

proof fn lemma_refusals(handles: Seq<Handle>)
    ensures
        first_refusal(handles) is None <==> forall|j: int|
            0 <= j < handles.len() ==> (#[trigger] handles[j]).clone_refusal is None,
    decreases handles.len(),
{
    if handles.len() > 0 {
        let rest = handles.subrange(1, handles.len() as int);
        lemma_refusals(rest);
        assert forall|j: int| 0 <= j < rest.len() implies rest[j] == #[trigger] handles[j + 1] by {}
        if handles[0].clone_refusal is None {
            if first_refusal(rest) is None {
                assert forall|j: int| 0 <= j < handles.len() implies (
                #[trigger] handles[j]).clone_refusal is None by {
                    if j > 0 {
                        assert(rest[j - 1] == handles[j]);
                    }
                }
            } else {
                let j = choose|j: int| 0 <= j < rest.len() && !((#[trigger] rest[j]).clone_refusal
                    is None);
                assert(handles[j + 1].clone_refusal is Some);
            }
        }
    }
}

} // verus!
