//! Interface capabilities of ports.

use vstd::prelude::*;

verus! {

/// Send a message through the port.
pub const P_SEND_MSG: u32 = 0x0001;

/// Receive a message from the port.
pub const P_RECV_MSG: u32 = 0x0002;

/// Subscribe the caller to a fan-out port.
pub const P_SUBSCRIBE: u32 = 0x0004;

/// Unsubscribe the caller from a fan-out port.
pub const P_UNSUBSCRIBE: u32 = 0x0008;

/// Bind a receive endpoint.
pub const P_BIND_RECV: u32 = 0x0010;

/// Replace the bound receive endpoint.
pub const P_REBIND_RECV: u32 = 0x0020;

/// Query state and statistics.
pub const P_QUERY_STATE: u32 = 0x0040;

/// Change port policy.
pub const P_SET_POLICY: u32 = 0x0080;

/// Close or freeze the port.
pub const P_CLOSE_PORT: u32 = 0x0100;

/// Drop queued messages.
pub const P_DRAIN: u32 = 0x0200;

/// Install a message filter.
pub const P_SET_FILTER: u32 = 0x0400;

/// Publish a message to a bus port.
pub const P_PUBLISH: u32 = 0x0800;

/// Listen on a bus route.
pub const P_LISTEN: u32 = 0x1000;

/// Forward on behalf of another principal.
pub const P_FORWARD: u32 = 0x2000;

/// Whether the granted interface capabilities cover the needed ones. All bits
/// set stands for unrestricted access.
pub open spec fn covers(granted: u32, needed: u32) -> bool {
    granted == u32::MAX || (granted & needed) == needed
}

pub fn caps_cover(granted: u32, needed: u32) -> (covered: bool)
    ensures
        covered == covers(granted, needed),
{
    granted == u32::MAX || (granted & needed) == needed
}

/// A set of capabilities is enough where it has every bit that is needed. The
/// full set is always enough.
pub proof fn law_capabilities_are_compared_bit_by_bit(granted: u32, needed: u32)
    ensures
        covers(granted, needed) <==> needed & !granted == 0,
        covers(u32::MAX, needed),
        covers(granted, 0),
        covers(granted, granted),
{
    assert(granted & needed == needed <==> needed & !granted == 0) by (bit_vector);
    assert(needed & !u32::MAX == 0 && granted & 0 == 0 && granted & granted == granted)
        by (bit_vector);
}

} // verus!
