use vstd::prelude::*;

verus! {

/// What can go wrong in a rendezvous, on either side of the channel.
#[derive(PartialEq, Eq, Structural, Clone, Copy, Debug)]
pub enum RendezvousError {
    /// The platform cannot provide namespaced, path-free endpoints.
    AddressingUnsupported,
    /// The client could not bind its own reply endpoint.
    LocalBindFailed,
    /// No daemon became reachable within the boot-wait budget.
    DaemonUnreachable,
    /// Another daemon already holds the well-known endpoint.
    AlreadyRunning,
    /// A reply could not be delivered to a client that has gone away.
    ReplyDeliveryFailed,
    /// A request does not fit in one message.
    PayloadTooLarge,
    /// Sending the request or receiving a message failed.
    ExchangeFailed,
}

} // verus!
