use vstd::prelude::*;

verus! {

/// The flat error taxonomy of the stack.
#[derive(Debug, Clone, Copy, PartialEq, Eq, Structural)]
pub enum Error {
    /// A resource is momentarily unavailable (a queue is empty or full).
    Exhausted,
    /// A packet is shorter than its header claims.
    Truncated,
    /// A packet has an invalid field.
    Malformed,
    /// A frame uses an unsupported protocol.
    Unrecognized,
    /// An outbound packet cannot be routed.
    Unaddressable,
    /// A socket refuses an otherwise matching packet.
    Rejected,
    /// A socket silently consumed a packet.
    Dropped,
    /// Two sockets claim the same dispatch key.
    AlreadyInUse,
    /// No dispatch entry was found.
    SocketNotFound,
    /// An operation is not valid in the socket's current state.
    Illegal,
}

} // verus!
