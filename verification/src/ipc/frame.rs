//! Methods, errors and replies of port invocations.

use vstd::prelude::*;

verus! {

/// Errors of the message subsystem.
#[derive(Debug, Clone, Copy, PartialEq, Eq, Structural)]
pub enum IpcError {
    InvalidArgument,
    Fault,
    BufferTooSmall,
    Unbound,
    PortClosed,
    ReceiverClosed,
    InvalidMessage,
    AlreadyBound,
    AlreadySubscribed,
    NotSubscribed,
    WouldBlock,
}

/// Methods of port objects.
#[derive(Debug, Clone, Copy, PartialEq, Eq, Structural)]
pub enum PortMethod {
    QueryState,
    Send,
    Recv,
    BindReceiver,
    RebindReceiver,
    Subscribe,
    Unsubscribe,
    Close,
    Freeze,
}

/// Five words that a successful invocation returns.
#[derive(Debug, Clone, Copy, PartialEq, Eq, Structural)]
pub struct ReplyValues {
    pub v0: usize,
    pub v1: usize,
    pub v2: usize,
    pub v3: usize,
    pub v4: usize,
}

/// The six words of a reply as the caller gets them: the status, and five more.
#[derive(Debug, Clone, Copy, PartialEq, Eq, Structural)]
pub struct RawReply {
    pub status: usize,
    pub values: ReplyValues,
}

/// Reply frame of an invocation.
#[derive(Debug, Clone, Copy, PartialEq, Eq, Structural)]
pub enum InvokeReply {
    Done(ReplyValues),
    Ipc(IpcError),
}

/// Builds reply frames.
pub struct IpcInvokeFrame;

impl IpcInvokeFrame {
    pub open spec fn one(value: usize) -> InvokeReply {
        InvokeReply::Done(ReplyValues { v0: value, v1: 0, v2: 0, v3: 0, v4: 0 })
    }

    /// A frame that reports success with five words.
    pub fn ok(values: ReplyValues) -> (reply: InvokeReply)
        ensures
            reply == InvokeReply::Done(values),
    {
        InvokeReply::Done(values)
    }

    /// A frame that reports success with one word.
    pub fn ok_one(value: usize) -> (reply: InvokeReply)
        ensures
            reply == Self::one(value),
    {
        InvokeReply::Done(ReplyValues { v0: value, v1: 0, v2: 0, v3: 0, v4: 0 })
    }

    /// A frame that reports success and nothing else.
    pub fn empty_ok() -> (reply: InvokeReply)
        ensures
            reply == Self::one(0),
    {
        Self::ok_one(0)
    }

    /// A frame that reports a failure of the message subsystem.
    pub fn ipc_error(error: IpcError) -> (reply: InvokeReply)
        ensures
            reply == InvokeReply::Ipc(error),
    {
        InvokeReply::Ipc(error)
    }
}

} // verus!
